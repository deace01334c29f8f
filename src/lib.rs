//! Driver for the NexStar serial protocol of Celestron telescope hand
//! controllers: typed requests are encoded into command frames, replies are
//! checked against their trailing acknowledgment byte and decoded.
//!
//! The driver works over any transport that implements [`SerialRead`] and
//! [`SerialWrite`]. It records the result of every call it makes on them as
//! ghost state, and each operation's contract says, from those results, what
//! was sent, how far the reply was read and what the operation returns.

pub mod driver;
pub mod link;
pub mod wire;

pub use driver::NexStar;
pub use link::{Error, SerialRead, SerialWrite};
pub use wire::{dec_dms, Command, DateTime, Device, Location, Model, Version};
