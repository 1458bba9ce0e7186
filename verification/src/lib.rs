//! Core of a pulse-coded remote transmitter: a packet codec that turns a
//! command record into an exact checksummed bit sequence (and back), a pulse
//! map that turns bit sequences into timed high/low pulse pairs, and a
//! transmit queue that serializes transmissions against asynchronous
//! completion notifications.

pub mod bits;
pub mod cli;
pub mod packet;
pub mod pulses;
pub mod queue;
