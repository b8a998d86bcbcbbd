//! Inter-process, multiple-producer, single-consumer channels over a ring buffer in shared memory.
//!
//! A ring lies in a file that every process of a channel maps.  This crate holds the rules of the
//! channel: how messages lie in the ring, when a sender may store one, what the receiver finds, when
//! either waits and for how long.  It works on the memory and on the shared variables that it is
//! handed; mapping the file, locking the ring, and turning values into bytes is left to the platform
//! around it.
//!
//! * [`ring`] says what the memory of a ring means, and [`laws`] what holds of every channel.
//! * [`buffer`] sets rings up; [`sender`] and [`receiver`] are the two ends; [`deadline`] limits
//!   their waits; [`frame`] stores lengths and messages.
//! * [`posix`] and [`windows`] hold what the locks of the two platforms decide, with [`bitmask`] for
//!   the waiters of the latter; [`text`] and [`child`] word failures.

pub mod bitmask;
pub mod buffer;
pub mod child;
pub mod deadline;
pub mod error;
pub mod frame;
pub mod laws;
pub mod posix;
pub mod receiver;
pub mod ring;
pub mod sender;
pub mod text;
pub mod windows;
pub mod yuv;

pub use crate::buffer::{Header, SharedRingBuffer};
pub use crate::error::Error;
pub use crate::receiver::{Receiver, ZeroCopyContext};
pub use crate::sender::Sender;
