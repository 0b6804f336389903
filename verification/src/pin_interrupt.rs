//! Pin-edge interrupt capture with inter-edge period measurement.
//!
//! A free-running hardware timer is re-armed on every edge; the next edge's
//! period is the elapsed value read from it. On the first edge after arming,
//! and whenever the timer free-ran past its maximum before the next edge, no
//! reliable period exists and none is reported. The interrupt handler pushes
//! one event per latched edge into a fixed-capacity queue; the idle loop
//! drains them without time pressure.

use vstd::prelude::*;

use crate::EVENT_QUEUE_CAPACITY;
use crate::pin::Level;
use crate::queue::Queue;

verus! {

/// A pin-edge event.
#[derive(Clone, Copy, Debug, PartialEq, Eq, Structural)]
pub struct Event {
    /// The level of the pin after this edge.
    pub level: Level,
    /// Timer ticks since the previous edge, if reliably measured.
    pub period: Option<u32>,
}

/// Error raised in the interrupt handler when the event queue is full.
#[derive(Clone, Copy, Debug, PartialEq, Eq, Structural)]
pub struct EventQueueFull;

/// The capture state for one monitored pin.
pub struct PinInterrupt {
    queue: Queue<Event>,
    measuring: bool,
}

impl PinInterrupt {
    /// Events captured and not yet drained, oldest first.
    pub closed spec fn events(&self) -> Seq<Event> {
        self.queue@
    }

    /// Whether an edge has been seen since arming, so that the timer
    /// measures a period.
    pub closed spec fn measuring(&self) -> bool {
        self.measuring
    }

    /// The queue respects its fixed capacity.
    pub closed spec fn wf(&self) -> bool {
        &&& self.queue.wf()
        &&& self.queue.spec_capacity() == EVENT_QUEUE_CAPACITY
    }

    /// A freshly armed capture: no edge seen, no event pending.
    pub fn new() -> (p: PinInterrupt)
        ensures
            p.events() == Seq::<Event>::empty(),
            !p.measuring(),
            p.wf(),
    {
        PinInterrupt { queue: Queue::new(EVENT_QUEUE_CAPACITY), measuring: false }
    }

    /// The period the next event carries, given the capture state and what
    /// the hardware reports: nothing on the first edge or after a timer
    /// overrun, the elapsed ticks otherwise.
    pub open spec fn period_of(measuring: bool, timer_wrapped: bool, elapsed: u32) -> Option<
        u32,
    > {
        if measuring && !timer_wrapped {
            Some(elapsed)
        } else {
            None
        }
    }

    /// The events one interrupt emits: one per latched edge, rising first.
    pub open spec fn emitted(
        measuring: bool,
        rising: bool,
        falling: bool,
        timer_wrapped: bool,
        elapsed: u32,
    ) -> Seq<Event> {
        let period = Self::period_of(measuring, timer_wrapped, elapsed);
        let up: Seq<Event> = if rising {
            seq![Event { level: Level::High, period }]
        } else {
            Seq::empty()
        };
        let down: Seq<Event> = if falling {
            seq![Event { level: Level::Low, period }]
        } else {
            Seq::empty()
        };
        up + down
    }

    /// Handles one pin interrupt, directly from the interrupt handler.
    ///
    /// `rising` and `falling` are the hardware's latched edge flags (both
    /// may be set under fast toggling; both events are emitted, oldest
    /// first); `timer_wrapped` reports whether the measuring timer free-ran
    /// past its maximum, and `elapsed` its reading. The first edge after
    /// arming carries no period; later edges carry `elapsed` unless the
    /// timer wrapped. Never blocks; a full queue is surfaced as an error and
    /// the events that did not fit are lost.
    pub fn handle_interrupt(
        &mut self,
        rising: bool,
        falling: bool,
        timer_wrapped: bool,
        elapsed: u32,
    ) -> (r: Result<(), EventQueueFull>)
        requires
            old(self).wf(),
        ensures
            final(self).wf(),
            final(self).measuring(),
            r is Ok ==> final(self).events() == old(self).events() + Self::emitted(
                old(self).measuring(),
                rising,
                falling,
                timer_wrapped,
                elapsed,
            ),
            r is Err ==> old(self).events().len() + Self::emitted(
                old(self).measuring(),
                rising,
                falling,
                timer_wrapped,
                elapsed,
            ).len() > EVENT_QUEUE_CAPACITY,
    {
        let period: Option<u32> = if self.measuring && !timer_wrapped {
            Some(elapsed)
        } else {
            None
        };
        let ghost emitted = Self::emitted(
            self.measuring,
            rising,
            falling,
            timer_wrapped,
            elapsed,
        );
        self.measuring = true;
        if rising {
            match self.queue.enqueue(Event { level: Level::High, period }) {
                Ok(()) => {}
                Err(_) => {
                    return Err(EventQueueFull);
                }
            }
        }
        if falling {
            match self.queue.enqueue(Event { level: Level::Low, period }) {
                Ok(()) => {
                    proof {
                        assert(self.events() =~= old(self).events() + emitted);
                    }
                }
                Err(_) => {
                    return Err(EventQueueFull);
                }
            }
        } else {
            proof {
                assert(self.events() =~= old(self).events() + emitted);
            }
        }
        Ok(())
    }

    /// The next pin-edge event, if one is pending. For the idle loop.
    pub fn next(&mut self) -> (r: Option<Event>)
        requires
            old(self).wf(),
        ensures
            final(self).wf(),
            final(self).measuring() == old(self).measuring(),
            old(self).events().len() == 0 ==> r is None && final(self).events() == old(
                self,
            ).events(),
            old(self).events().len() > 0 ==> {
                &&& r == Some(old(self).events()[0])
                &&& final(self).events() == old(self).events().drop_first()
            },
    {
        self.queue.dequeue()
    }

    /// Whether an event is pending. Checked, with interrupts masked, before
    /// the idle loop puts the core to sleep.
    pub fn is_ready(&self) -> (r: bool)
        ensures
            r == (self.events().len() > 0),
    {
        self.queue.is_ready()
    }
}

} // verus!
