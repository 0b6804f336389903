//! The firmware dispatch step: what each node decides per message or event.
//!
//! The idle loop's hardware actions (writing a USART, toggling a pin,
//! running a peripheral transaction) are modeled as outputs: bytes appended
//! to a wire, levels stored, reply messages queued, or an action value the
//! embedding loop performs. Everything the firmware decides is here and
//! verified; performing the action is the embedding program's concern.

use vstd::prelude::*;
use vstd::pervasive::VecAdditionalExecFns;

use crate::messages::HostToTarget;
use crate::messages::TargetToHost;
use crate::messages::DmaMode;
use crate::notify;
use crate::pin::Level;
use crate::pin::LevelChanged;
use crate::pin::ReadLevelResult;
use crate::pin_interrupt::Event;
use crate::pin_interrupt::PinInterrupt;
use crate::protocol::AssistantToHost;
use crate::protocol::HostToAssistant;
use crate::protocol::InputPin;
use crate::protocol::UsartMode;

verus! {

/// Ticks of the pin-interrupt measuring timer per millisecond.
pub const TIMER_TICKS_PER_MS: u32 = 12000;

/// A captured event's entry for the pin table: its level, and its period
/// converted from timer ticks to milliseconds.
pub open spec fn event_entry(e: Event) -> (Level, Option<u32>) {
    (
        e.level,
        match e.period {
            Option::Some(ticks) => Some((ticks / TIMER_TICKS_PER_MS) as u32),
            Option::None => None,
        },
    )
}

/// The last known level and period of each monitored pin.
pub struct PinTable {
    slots: Vec<Option<(Level, Option<u32>)>>,
}

impl PinTable {
    /// The stored entry for `pin`, if one was ever recorded.
    pub closed spec fn entry(&self, pin: InputPin) -> Option<(Level, Option<u32>)> {
        self.slots@[pin.idx()]
    }

    /// One slot per monitored pin.
    pub closed spec fn wf(&self) -> bool {
        self.slots@.len() == 3
    }

    /// A table with nothing recorded.
    pub fn new() -> (t: PinTable)
        ensures
            t.wf(),
            forall|pin: InputPin| t.entry(pin) is None,
    {
        let mut slots: Vec<Option<(Level, Option<u32>)>> = Vec::new();
        slots.push(None);
        slots.push(None);
        slots.push(None);
        proof {
            assert forall|pin: InputPin| (PinTable { slots }).entry(pin) is None by {
                assert(0 <= pin.idx() < 3);
            }
        }
        PinTable { slots }
    }

    /// Records the latest level and period for `pin`.
    pub fn insert(&mut self, pin: InputPin, level: Level, period_ms: Option<u32>)
        requires
            old(self).wf(),
        ensures
            final(self).wf(),
            final(self).entry(pin) == Some((level, period_ms)),
            forall|other: InputPin| other.idx() != pin.idx() ==> final(self).entry(other) == old(self).entry(other),
    {
        let i = pin.index();
        self.slots.set(i, Some((level, period_ms)));
    }

    /// The recorded entry for `pin`.
    pub fn get(&self, pin: InputPin) -> (r: Option<(Level, Option<u32>)>)
        requires
            self.wf(),
        ensures
            r == self.entry(pin),
    {
        let i = pin.index();
        self.slots[i]
    }
}

/// What the pin table's entry for `pin` is after draining `events` into it.
pub open spec fn table_entry_after(
    prev: Option<(Level, Option<u32>)>,
    events: Seq<Event>,
) -> Option<(Level, Option<u32>)> {
    if events.len() == 0 {
        prev
    } else {
        Some(event_entry(events.last()))
    }
}

/// Drains all pending events of one pin interrupt into the pin table: the
/// table ends up holding the latest event's level and period.
pub fn handle_pin_interrupt(capture: &mut PinInterrupt, pin: InputPin, pins: &mut PinTable)
    requires
        old(capture).wf(),
        old(pins).wf(),
    ensures
        final(capture).wf(),
        final(pins).wf(),
        final(capture).events() == Seq::<Event>::empty(),
        final(capture).measuring() == old(capture).measuring(),
        final(pins).entry(pin) == table_entry_after(old(pins).entry(pin), old(capture).events()),
        forall|other: InputPin| other.idx() != pin.idx() ==> final(pins).entry(other) == old(pins).entry(other),
{
    let ghost all = capture.events();
    let ghost mut n: int = 0;
    loop
        invariant
            all == old(capture).events(),
            0 <= n <= all.len(),
            capture.wf(),
            pins.wf(),
            capture.events() == all.skip(n),
            capture.measuring() == old(capture).measuring(),
            pins.entry(pin) == table_entry_after(old(pins).entry(pin), all.take(n)),
            forall|other: InputPin| other.idx() != pin.idx() ==> pins.entry(other) == old(pins).entry(other),
        decreases capture.events().len(),
    {
        let event = match capture.next() {
            Some(e) => e,
            None => {
                proof {
                    assert(all.take(n) =~= all);
                }
                return ;
            }
        };
        proof {
            assert(all.skip(n)[0] == all[n]);
            assert(all.skip(n).drop_first() =~= all.skip(n + 1));
        }
        let period_ms: Option<u32> = match event.period {
            Some(ticks) => Some(ticks / TIMER_TICKS_PER_MS),
            None => None,
        };
        pins.insert(pin, event.level, period_ms);
        proof {
            n = n + 1;
            assert(all.take(n).last() == all[n - 1]);
            assert(all.take(n).len() == n);
        }
    }
}

/// The notification one captured event becomes.
pub open spec fn level_changed_msg(pin: InputPin, e: Event) -> notify::AssistantToHost {
    notify::AssistantToHost::PinLevelChanged(
        LevelChanged { pin, level: event_entry(e).0, period_ms: event_entry(e).1 },
    )
}

/// Drains all pending events of one pin interrupt, emitting one level-change
/// notification per event, oldest first.
pub fn handle_timer_interrupts(
    capture: &mut PinInterrupt,
    pin: InputPin,
    out: &mut Vec<notify::AssistantToHost>,
)
    requires
        old(capture).wf(),
    ensures
        final(capture).wf(),
        final(capture).events() == Seq::<Event>::empty(),
        final(capture).measuring() == old(capture).measuring(),
        final(out)@ == old(out)@ + old(capture).events().map_values(
            |e: Event| level_changed_msg(pin, e),
        ),
{
    let ghost all = capture.events();
    let ghost f = |e: Event| level_changed_msg(pin, e);
    let ghost mut n: int = 0;
    loop
        invariant
            all == old(capture).events(),
            0 <= n <= all.len(),
            capture.wf(),
            capture.events() == all.skip(n),
            capture.measuring() == old(capture).measuring(),
            out@ == old(out)@ + all.take(n).map_values(f),
            f == (|e: Event| level_changed_msg(pin, e)),
        decreases capture.events().len(),
    {
        let event = match capture.next() {
            Some(e) => e,
            None => {
                proof {
                    assert(all.take(n) =~= all);
                }
                return ;
            }
        };
        proof {
            assert(all.skip(n)[0] == all[n]);
            assert(all.skip(n).drop_first() =~= all.skip(n + 1));
        }
        let period_ms: Option<u32> = match event.period {
            Some(ticks) => Some(ticks / TIMER_TICKS_PER_MS),
            None => None,
        };
        out.push(
            notify::AssistantToHost::PinLevelChanged(
                LevelChanged { pin, level: event.level, period_ms },
            ),
        );
        proof {
            n = n + 1;
            assert(all.take(n).map_values(f) =~= all.take(n - 1).map_values(f).push(f(all[n - 1])));
            assert(out@ =~= old(out)@ + all.take(n).map_values(f));
        }
    }
}

/// The assistant firmware's state: the levels it drives and the levels it
/// has seen.
pub struct AssistantFirmware {
    pins: PinTable,
    red: Level,
    cts: Level,
    pin5: Level,
}

impl AssistantFirmware {
    /// The monitored pins' last known levels and periods.
    pub closed spec fn entry(&self, pin: InputPin) -> Option<(Level, Option<u32>)> {
        self.pins.entry(pin)
    }

    /// The level driven on the target's input pin.
    pub closed spec fn red(&self) -> Level {
        self.red
    }

    /// The level driven on the target's CTS line.
    pub closed spec fn cts(&self) -> Level {
        self.cts
    }

    /// The level driven on the spare output pin.
    pub closed spec fn pin5(&self) -> Level {
        self.pin5
    }

    pub closed spec fn wf(&self) -> bool {
        self.pins.wf()
    }

    /// The reply a read request for `pin` gets: the stored entry, if any.
    pub open spec fn read_reply(&self, pin: InputPin) -> AssistantToHost {
        AssistantToHost::ReadPinResult(
            match self.entry(pin) {
                Option::Some((level, period_ms)) => Some(ReadLevelResult { pin, level, period_ms }),
                Option::None => None,
            },
        )
    }

    /// Freshly started firmware: outputs at their reset level, nothing seen.
    pub fn new() -> (a: AssistantFirmware)
        ensures
            a.wf(),
            a.red() == Level::High,
            a.cts() == Level::High,
            a.pin5() == Level::High,
            forall|pin: InputPin| a.entry(pin) is None,
    {
        AssistantFirmware {
            pins: PinTable::new(),
            red: Level::High,
            cts: Level::High,
            pin5: Level::High,
        }
    }

    /// Records what a pin interrupt captured.
    pub fn record_pin_event(&mut self, pin: InputPin, level: Level, period_ms: Option<u32>)
        requires
            old(self).wf(),
        ensures
            final(self).wf(),
            final(self).entry(pin) == Some((level, period_ms)),
            forall|other: InputPin| other.idx() != pin.idx() ==> final(self).entry(other) == old(self).entry(other),
            final(self).red() == old(self).red(),
            final(self).cts() == old(self).cts(),
            final(self).pin5() == old(self).pin5(),
    {
        self.pins.insert(pin, level, period_ms);
    }

    /// Dispatches one host request: sends bytes towards the target on the
    /// commanded link, drives an output pin, or queues the reply to a read
    /// request. Exactly one of the outputs changes, as the message directs.
    pub fn handle_host_message(
        &mut self,
        message: HostToAssistant,
        target_tx: &mut Vec<u8>,
        target_tx_dma: &mut Vec<u8>,
        target_sync_tx: &mut Vec<u8>,
        replies: &mut Vec<AssistantToHost>,
    )
        requires
            old(self).wf(),
        ensures
            final(self).wf(),
            ({
                let unchanged_wires = {
                    &&& final(target_tx)@ == old(target_tx)@
                    &&& final(target_tx_dma)@ == old(target_tx_dma)@
                    &&& final(target_sync_tx)@ == old(target_sync_tx)@
                };
                let unchanged_state = {
                    &&& final(self).red() == old(self).red()
                    &&& final(self).cts() == old(self).cts()
                    &&& final(self).pin5() == old(self).pin5()
                    &&& forall|pin: InputPin|
                        final(self).entry(pin) == old(self).entry(pin)
                };
                let unchanged_replies = final(replies)@ == old(replies)@;
                match message@ {
                    crate::protocol::HostToAssistantView::SendUsart { mode, data } => {
                        &&& unchanged_state
                        &&& unchanged_replies
                        &&& mode == UsartMode::Regular ==> final(target_tx)@ == old(target_tx)@
                            + data && final(target_tx_dma)@ == old(target_tx_dma)@ && final(target_sync_tx)@ == old(target_sync_tx)@
                        &&& mode == UsartMode::Dma ==> final(target_tx_dma)@ == old(target_tx_dma)@ + data && final(target_tx)@ == old(target_tx)@ && final(target_sync_tx)@
                            == old(target_sync_tx)@
                        &&& mode == UsartMode::Sync ==> final(target_sync_tx)@ == old(target_sync_tx)@ + data && final(target_tx)@ == old(target_tx)@ && final(target_tx_dma)@
                            == old(target_tx_dma)@
                        &&& mode == UsartMode::FlowControl ==> unchanged_wires
                    },
                    crate::protocol::HostToAssistantView::SetPin(sl) => {
                        &&& unchanged_wires
                        &&& unchanged_replies
                        &&& forall|pin: InputPin|
                            final(self).entry(pin) == old(self).entry(pin)
                        &&& final(self).red() == (if sl.pin == crate::protocol::OutputPin::Red {
                            sl.level
                        } else {
                            old(self).red()
                        })
                        &&& final(self).cts() == (if sl.pin == crate::protocol::OutputPin::Cts {
                            sl.level
                        } else {
                            old(self).cts()
                        })
                        &&& final(self).pin5() == (if sl.pin == crate::protocol::OutputPin::Pin5 {
                            sl.level
                        } else {
                            old(self).pin5()
                        })
                    },
                    crate::protocol::HostToAssistantView::ReadPin(rl) => {
                        &&& unchanged_wires
                        &&& unchanged_state
                        &&& final(replies)@ == old(replies)@.push(old(self).read_reply(rl.pin))
                    },
                }
            }),
    {
        match message {
            HostToAssistant::SendUsart { mode: UsartMode::Regular, data } => {
                push_all(target_tx, &data);
            }
            HostToAssistant::SendUsart { mode: UsartMode::Dma, data } => {
                push_all(target_tx_dma, &data);
            }
            HostToAssistant::SendUsart { mode: UsartMode::Sync, data } => {
                push_all(target_sync_tx, &data);
            }
            HostToAssistant::SendUsart { mode: UsartMode::FlowControl, data: _ } => {}
            HostToAssistant::SetPin(sl) => {
                match sl.pin {
                    crate::protocol::OutputPin::Red => {
                        self.red = sl.level;
                    }
                    crate::protocol::OutputPin::Cts => {
                        self.cts = sl.level;
                    }
                    crate::protocol::OutputPin::Pin5 => {
                        self.pin5 = sl.level;
                    }
                }
            }
            HostToAssistant::ReadPin(rl) => {
                let result = match self.pins.get(rl.pin) {
                    Some((level, period_ms)) => Some(
                        ReadLevelResult { pin: rl.pin, level, period_ms },
                    ),
                    None => None,
                };
                replies.push(AssistantToHost::ReadPinResult(result));
            }
        }
    }
}

/// Appends a byte vector's contents to a wire.
fn push_all(wire: &mut Vec<u8>, data: &Vec<u8>)
    ensures
        final(wire)@ == old(wire)@ + data@,
{
    let ghost w0 = wire@;
    let mut i: usize = 0;
    while i < data.len()
        invariant
            i <= data@.len(),
            wire@ == w0 + data@.take(i as int),
        decreases data@.len() - i,
    {
        wire.push(data[i]);
        assert(wire@ =~= w0 + data@.take(i + 1));
        i = i + 1;
    }
    assert(data@.take(data@.len() as int) =~= data@);
}

/// The USART address filter's state.
#[derive(Clone, Copy, Debug, PartialEq, Eq, Structural)]
pub enum FilterState {
    /// Everything received is delivered.
    Off,
    /// Everything is discarded until the address is matched.
    Armed(u8),
    /// The address was matched; everything since is delivered.
    Matched,
}

/// Whether `b` is an address byte (high bit set) matching `address`.
pub open spec fn is_address_match(address: u8, b: u8) -> bool {
    b >= 128 && b % 128 == address % 128
}

/// One byte through the filter: the next state, and whether the byte is
/// delivered. An address byte that matches is consumed, not delivered.
pub open spec fn feed_spec(st: FilterState, b: u8) -> (FilterState, bool) {
    match st {
        FilterState::Off => (FilterState::Off, true),
        FilterState::Armed(a) => {
            if is_address_match(a, b) {
                (FilterState::Matched, false)
            } else {
                (FilterState::Armed(a), false)
            }
        },
        FilterState::Matched => (FilterState::Matched, true),
    }
}

/// A byte run through the filter: the final state and the delivered bytes.
pub open spec fn filter_run(st: FilterState, s: Seq<u8>) -> (FilterState, Seq<u8>)
    decreases s.len(),
{
    if s.len() == 0 {
        (st, Seq::empty())
    } else {
        let step = feed_spec(st, s[0]);
        let rest = filter_run(step.0, s.drop_first());
        (rest.0, if step.1 {
            seq![s[0]] + rest.1
        } else {
            rest.1
        })
    }
}

/// Once matched, the filter delivers everything.
pub proof fn lemma_filter_matched(s: Seq<u8>)
    ensures
        filter_run(FilterState::Matched, s) == (FilterState::Matched, s),
    decreases s.len(),
{
    if s.len() == 0 {
        assert(filter_run(FilterState::Matched, s).1 =~= s);
    } else {
        lemma_filter_matched(s.drop_first());
        assert(seq![s[0]] + s.drop_first() =~= s);
    }
}

/// Address filtering: bytes sent before a matching address byte are not
/// forwarded; the address byte itself is consumed; bytes sent after it are
/// forwarded verbatim.
pub proof fn lemma_address_filter(a: u8, pre: Seq<u8>, mb: u8, post: Seq<u8>)
    requires
        forall|i: int| 0 <= i < pre.len() ==> !is_address_match(a, #[trigger] pre[i]),
        is_address_match(a, mb),
    ensures
        filter_run(FilterState::Armed(a), pre + seq![mb] + post) == (FilterState::Matched, post),
    decreases pre.len(),
{
    let s = pre + seq![mb] + post;
    if pre.len() == 0 {
        assert(s[0] == mb);
        lemma_filter_matched(s.drop_first());
        assert(s.drop_first() =~= post);
    } else {
        assert(s[0] == pre[0]);
        assert(!is_address_match(a, pre[0]));
        assert(s.drop_first() =~= pre.drop_first() + seq![mb] + post);
        assert forall|i: int| 0 <= i < pre.drop_first().len() implies !is_address_match(
            a,
            #[trigger] pre.drop_first()[i],
        ) by {
            assert(pre.drop_first()[i] == pre[i + 1]);
        }
        lemma_address_filter(a, pre.drop_first(), mb, post);
    }
}

/// Extending a filtered run by one byte.
pub proof fn lemma_filter_run_snoc(st: FilterState, s: Seq<u8>, b: u8)
    ensures
        ({
            let whole = filter_run(st, s.push(b));
            let prefix = filter_run(st, s);
            let step = feed_spec(prefix.0, b);
            &&& whole.0 == step.0
            &&& whole.1 == (if step.1 {
                prefix.1.push(b)
            } else {
                prefix.1
            })
        }),
    decreases s.len(),
{
    if s.len() == 0 {
        let step = feed_spec(st, b);
        assert(s.push(b).len() == 1);
        assert(s.push(b)[0] == b);
        assert(s.push(b).drop_first() =~= Seq::<u8>::empty());
        assert(filter_run(step.0, s.push(b).drop_first()).1 =~= Seq::<u8>::empty());
        assert(filter_run(st, s).1 =~= Seq::<u8>::empty());
        if step.1 {
            assert(filter_run(st, s.push(b)).1 =~= seq![b] + Seq::<u8>::empty());
            assert(seq![b] + Seq::<u8>::empty() =~= seq![b]);
            assert(filter_run(st, s).1.push(b) =~= seq![b]);
        } else {
            assert(filter_run(st, s.push(b)).1 =~= Seq::<u8>::empty());
        }
    } else {
        assert(s.push(b)[0] == s[0]);
        assert(s.push(b).drop_first() =~= s.drop_first().push(b));
        lemma_filter_run_snoc(feed_spec(st, s[0]).0, s.drop_first(), b);
        let step0 = feed_spec(st, s[0]);
        let inner = filter_run(step0.0, s.drop_first());
        if step0.1 {
            let stepb = feed_spec(inner.0, b);
            if stepb.1 {
                assert(seq![s[0]] + inner.1.push(b) =~= (seq![s[0]] + inner.1).push(b));
            }
        }
    }
}

/// The USART address filter of the target's monitored receiver.
pub struct AddressFilter {
    state: FilterState,
}

impl AddressFilter {
    /// The filter's state.
    pub closed spec fn state(&self) -> FilterState {
        self.state
    }

    /// A filter that delivers everything.
    pub fn new() -> (f: AddressFilter)
        ensures
            f.state() == FilterState::Off,
    {
        AddressFilter { state: FilterState::Off }
    }

    /// Discards received bytes until `address` is matched.
    pub fn arm(&mut self, address: u8)
        ensures
            final(self).state() == FilterState::Armed(address),
    {
        self.state = FilterState::Armed(address);
    }

    /// The filter's state, for inspection.
    pub fn current(&self) -> (r: FilterState)
        ensures
            r == self.state(),
    {
        self.state
    }

    /// Runs one byte through the filter, saying whether to deliver it.
    pub fn feed(&mut self, b: u8) -> (deliver: bool)
        ensures
            (final(self).state(), deliver) == feed_spec(old(self).state(), b),
    {
        match self.state {
            FilterState::Off => true,
            FilterState::Armed(a) => {
                if b >= 128 && b % 128 == a % 128 {
                    self.state = FilterState::Matched;
                    false
                } else {
                    false
                }
            },
            FilterState::Matched => true,
        }
    }

    /// Runs a run of bytes through the filter, returning those delivered.
    pub fn feed_all(&mut self, data: &[u8]) -> (delivered: Vec<u8>)
        ensures
            (final(self).state(), delivered@) == filter_run(old(self).state(), data@),
    {
        let mut out: Vec<u8> = Vec::new();
        let mut i: usize = 0;
        proof {
            assert(data@.take(0) =~= Seq::<u8>::empty());
        }
        while i < data.len()
            invariant
                i <= data@.len(),
                (self.state(), out@) == filter_run(old(self).state(), data@.take(i as int)),
            decreases data@.len() - i,
        {
            proof {
                lemma_filter_run_snoc(old(self).state(), data@.take(i as int), data@[i as int]);
                assert(data@.take(i as int).push(data@[i as int]) =~= data@.take(i + 1));
            }
            let b = data[i];
            if self.feed(b) {
                out.push(b);
            }
            i = i + 1;
        }
        proof {
            assert(data@.take(data@.len() as int) =~= data@);
        }
        out
    }
}

/// A hardware action the target firmware asks its embedding loop to perform.
#[derive(Clone, Copy, Debug, PartialEq, Eq, Structural)]
pub enum TargetAction {
    /// Run an I2C transaction against the attached slave.
    I2c { mode: DmaMode, address: u8, data: u8 },
    /// Run an SPI transaction against the attached slave.
    Spi { mode: DmaMode, data: u8 },
    /// Sample the analog input.
    Adc,
}

/// The target firmware's state: the pin it drives, its timer, its address
/// filter, and the flow-controlled transmit path.
pub struct TargetFirmware {
    green: Level,
    timer: Option<u32>,
    filter: AddressFilter,
    cts_asserted: bool,
    pending: Vec<u8>,
}

impl TargetFirmware {
    /// The level driven on the target's GPIO pin.
    pub closed spec fn green(&self) -> Level {
        self.green
    }

    /// The timer interrupt's period, while it runs.
    pub closed spec fn timer(&self) -> Option<u32> {
        self.timer
    }

    /// The receive filter's state.
    pub closed spec fn filter_state(&self) -> FilterState {
        self.filter.state()
    }

    /// Whether the far side asserts CTS, so flow-controlled bytes may leave.
    pub closed spec fn cts_asserted(&self) -> bool {
        self.cts_asserted
    }

    /// Bytes held back until CTS is asserted.
    pub closed spec fn pending(&self) -> Seq<u8> {
        self.pending@
    }

    /// Freshly started firmware: pin high, timer off, filter off, CTS
    /// deasserted, nothing held back.
    pub fn new() -> (t: TargetFirmware)
        ensures
            t.green() == Level::High,
            t.timer() is None,
            t.filter_state() == FilterState::Off,
            !t.cts_asserted(),
            t.pending() == Seq::<u8>::empty(),
    {
        TargetFirmware {
            green: Level::High,
            timer: None,
            filter: AddressFilter::new(),
            cts_asserted: false,
            pending: Vec::new(),
        }
    }

    /// The receive filter's state, for inspection.
    pub fn current_filter(&self) -> (r: FilterState)
        ensures
            r == self.filter_state(),
    {
        self.filter.current()
    }

    /// Whether the timer interrupt currently runs.
    pub fn timer_running(&self) -> (r: bool)
        ensures
            r == (self.timer() is Some),
    {
        self.timer.is_some()
    }

    /// The level currently driven on the GPIO pin, for inspection.
    pub fn pin_level(&self) -> (r: Level)
        ensures
            r == self.green(),
    {
        self.green
    }

    /// The reply a read request gets: the driven pin's level.
    pub open spec fn read_reply(&self) -> TargetToHost {
        TargetToHost::ReadPinResult(
            Some(ReadLevelResult { pin: (), level: self.green(), period_ms: None }),
        )
    }

    /// Dispatches one host request: transmits on the USART (honoring flow
    /// control), arms the filter, drives the pin, runs the timer, answers a
    /// read, or asks the embedding loop for a peripheral transaction.
    pub fn handle_host_message(
        &mut self,
        message: HostToTarget,
        usart_tx: &mut Vec<u8>,
        replies: &mut Vec<TargetToHost>,
    ) -> (r: Option<TargetAction>)
        ensures
            ({
                let unchanged_state = {
                    &&& final(self).green() == old(self).green()
                    &&& final(self).timer() == old(self).timer()
                    &&& final(self).filter_state() == old(self).filter_state()
                    &&& final(self).cts_asserted() == old(self).cts_asserted()
                    &&& final(self).pending() == old(self).pending()
                };
                let unchanged_out = {
                    &&& final(usart_tx)@ == old(usart_tx)@
                    &&& final(replies)@ == old(replies)@
                };
                match message@ {
                    crate::messages::HostToTargetView::SendUsart { mode, data } => {
                        &&& final(replies)@ == old(replies)@
                        &&& final(self).green() == old(self).green()
                        &&& final(self).timer() == old(self).timer()
                        &&& final(self).filter_state() == old(self).filter_state()
                        &&& final(self).cts_asserted() == old(self).cts_asserted()
                        &&& r is None
                        &&& mode != UsartMode::FlowControl ==> final(usart_tx)@ == old(usart_tx)@
                            + data && final(self).pending() == old(self).pending()
                        &&& mode == UsartMode::FlowControl && old(self).cts_asserted() ==> final(usart_tx)@ == old(usart_tx)@ + data && final(self).pending() == old(self).pending()
                        &&& mode == UsartMode::FlowControl && !old(self).cts_asserted() ==> final(usart_tx)@ == old(usart_tx)@ && final(self).pending() == old(self).pending() + data
                    },
                    crate::messages::HostToTargetView::WaitForAddress(a) => {
                        &&& unchanged_out
                        &&& r is None
                        &&& final(self).filter_state() == FilterState::Armed(a)
                        &&& final(self).green() == old(self).green()
                        &&& final(self).timer() == old(self).timer()
                        &&& final(self).cts_asserted() == old(self).cts_asserted()
                        &&& final(self).pending() == old(self).pending()
                    },
                    crate::messages::HostToTargetView::SetPin(sl) => {
                        &&& unchanged_out
                        &&& r is None
                        &&& final(self).green() == sl.level
                        &&& final(self).timer() == old(self).timer()
                        &&& final(self).filter_state() == old(self).filter_state()
                        &&& final(self).cts_asserted() == old(self).cts_asserted()
                        &&& final(self).pending() == old(self).pending()
                    },
                    crate::messages::HostToTargetView::ReadPin(_) => {
                        &&& unchanged_state
                        &&& r is None
                        &&& final(usart_tx)@ == old(usart_tx)@
                        &&& final(replies)@ == old(replies)@.push(old(self).read_reply())
                    },
                    crate::messages::HostToTargetView::StartTimerInterrupt { period_ms } => {
                        &&& unchanged_out
                        &&& r is None
                        &&& final(self).timer() == Some(period_ms)
                        &&& final(self).green() == old(self).green()
                        &&& final(self).filter_state() == old(self).filter_state()
                        &&& final(self).cts_asserted() == old(self).cts_asserted()
                        &&& final(self).pending() == old(self).pending()
                    },
                    crate::messages::HostToTargetView::StopTimerInterrupt => {
                        &&& unchanged_out
                        &&& r is None
                        &&& final(self).timer() is None
                        &&& final(self).green() == old(self).green()
                        &&& final(self).filter_state() == old(self).filter_state()
                        &&& final(self).cts_asserted() == old(self).cts_asserted()
                        &&& final(self).pending() == old(self).pending()
                    },
                    crate::messages::HostToTargetView::StartI2cTransaction {
                        mode,
                        address,
                        data,
                    } => {
                        &&& unchanged_state
                        &&& unchanged_out
                        &&& r == Some(TargetAction::I2c { mode, address, data })
                    },
                    crate::messages::HostToTargetView::StartSpiTransaction { mode, data } => {
                        &&& unchanged_state
                        &&& unchanged_out
                        &&& r == Some(TargetAction::Spi { mode, data })
                    },
                    crate::messages::HostToTargetView::ReadAdc => {
                        &&& unchanged_state
                        &&& unchanged_out
                        &&& r == Some(TargetAction::Adc)
                    },
                }
            }),
    {
        match message {
            HostToTarget::SendUsart { mode, data } => {
                if mode == UsartMode::FlowControl {
                    if self.cts_asserted {
                        push_all(usart_tx, &data);
                    } else {
                        let ghost p0 = self.pending@;
                        let mut i: usize = 0;
                        while i < data.len()
                            invariant
                                i <= data@.len(),
                                self.pending@ == p0 + data@.take(i as int),
                                self.green == old(self).green,
                                self.timer == old(self).timer,
                                self.filter == old(self).filter,
                                self.cts_asserted == old(self).cts_asserted,
                            decreases data@.len() - i,
                        {
                            self.pending.push(data[i]);
                            assert(self.pending@ =~= p0 + data@.take(i + 1));
                            i = i + 1;
                        }
                        assert(data@.take(data@.len() as int) =~= data@);
                    }
                } else {
                    push_all(usart_tx, &data);
                }
                None
            }
            HostToTarget::WaitForAddress(a) => {
                self.filter.arm(a);
                None
            }
            HostToTarget::SetPin(sl) => {
                self.green = sl.level;
                None
            }
            HostToTarget::ReadPin(_) => {
                replies.push(
                    TargetToHost::ReadPinResult(
                        Some(ReadLevelResult { pin: (), level: self.green, period_ms: None }),
                    ),
                );
                None
            }
            HostToTarget::StartTimerInterrupt { period_ms } => {
                self.timer = Some(period_ms);
                None
            }
            HostToTarget::StopTimerInterrupt => {
                self.timer = None;
                None
            }
            HostToTarget::StartI2cTransaction { mode, address, data } => Some(
                TargetAction::I2c { mode, address, data },
            ),
            HostToTarget::StartSpiTransaction { mode, data } => Some(
                TargetAction::Spi { mode, data },
            ),
            HostToTarget::ReadAdc => Some(TargetAction::Adc),
        }
    }

    /// The far side's CTS line changed. Asserting it releases every byte
    /// held back by flow control onto the wire, in order.
    pub fn set_cts(&mut self, asserted: bool, usart_tx: &mut Vec<u8>)
        ensures
            final(self).green() == old(self).green(),
            final(self).timer() == old(self).timer(),
            final(self).filter_state() == old(self).filter_state(),
            final(self).cts_asserted() == asserted,
            asserted ==> final(usart_tx)@ == old(usart_tx)@ + old(self).pending() && final(self).pending() == Seq::<u8>::empty(),
            !asserted ==> final(usart_tx)@ == old(usart_tx)@ && final(self).pending() == old(self).pending(),
    {
        self.cts_asserted = asserted;
        if asserted {
            let mut drained: Vec<u8> = Vec::new();
            core::mem::swap(&mut drained, &mut self.pending);
            push_all(usart_tx, &drained);
        }
    }

    /// Bytes arrived on the monitored USART: runs them through the address
    /// filter and returns those the firmware actually receives.
    pub fn usart_input(&mut self, data: &[u8]) -> (delivered: Vec<u8>)
        ensures
            final(self).green() == old(self).green(),
            final(self).timer() == old(self).timer(),
            final(self).cts_asserted() == old(self).cts_asserted(),
            final(self).pending() == old(self).pending(),
            (final(self).filter_state(), delivered@) == filter_run(
                old(self).filter_state(),
                data@,
            ),
    {
        self.filter.feed_all(data)
    }
}

/// The byte the test stand's peripheral slaves answer a transaction with:
/// the received byte shifted left once.
pub open spec fn slave_reply(data: u8) -> u8 {
    ((data * 2) % 256) as u8
}

/// The assistant's I2C slave: stores what the master wrote and answers the
/// read-back with the written byte shifted left once.
pub struct I2cSlave {
    data: Option<u8>,
}

impl I2cSlave {
    /// The byte last written by the master, if any.
    pub closed spec fn stored(&self) -> Option<u8> {
        self.data
    }

    /// A slave that has seen nothing.
    pub fn new() -> (s: I2cSlave)
        ensures
            s.stored() is None,
    {
        I2cSlave { data: None }
    }

    /// One write-then-read transaction: stores `data`, answers with it
    /// shifted left once.
    pub fn transaction(&mut self, data: u8) -> (r: u8)
        ensures
            final(self).stored() == Some(data),
            r == slave_reply(data),
    {
        self.data = Some(data);
        ((data as u16 * 2) % 256) as u8
    }
}

/// The assistant's SPI slave: answers each transferred byte with the byte
/// shifted left once.
pub struct SpiSlave;

impl SpiSlave {
    /// A fresh slave.
    pub fn new() -> (s: SpiSlave) {
        SpiSlave
    }

    /// One transfer: answers with the sent byte shifted left once.
    pub fn transaction(&mut self, data: u8) -> (r: u8)
        ensures
            r == slave_reply(data),
    {
        ((data as u16 * 2) % 256) as u8
    }
}

} // verus!
