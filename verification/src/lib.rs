//! Verified core of a hardware-in-the-loop test stand.
//!
//! Firmware on one or more microcontrollers exchanges framed, typed messages
//! with host-side test code over serial links. This crate holds the logic that
//! is shared by every node: the interrupt-safe byte/event bridge, the framing
//! and encoding codec, pin-edge capture with period measurement, the firmware
//! dispatch step, the host-side transport client with timeout-bounded polling,
//! and the mutual-exclusion guard for the shared hardware.

pub mod assistant;
pub mod cobs;
pub mod conn;
pub mod firmware;
pub mod messages;
pub mod notify;
pub mod pin;
pub mod pin_interrupt;
pub mod pins;
pub mod port;
pub mod protocol;
pub mod queue;
pub mod serial;
pub mod search;
pub mod stand;
pub mod target;
pub mod usart;
pub mod wait;
pub mod wire;

use vstd::prelude::*;

verus! {

/// Number of byte slots in the bridge between a USART interrupt handler and
/// the idle loop.
pub const BYTE_QUEUE_CAPACITY: usize = 256;

/// Number of event slots in the bridge between a pin interrupt handler and
/// the idle loop.
pub const EVENT_QUEUE_CAPACITY: usize = 32;

} // verus!
