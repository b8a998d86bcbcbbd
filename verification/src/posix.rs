//! What the POSIX lock of a ring decides and computes around its system calls.

use crate::error::Error;
use crate::text::{decimal, display, failed, failure};
use vstd::prelude::*;

verus! {

/// The nanoseconds of a second.
pub const NANOS_PER_SEC: u128 = 1_000_000_000;

/// Turns the code that a system call returned into a result: zero is success.
pub fn nonzero(call: &str, code: i32) -> (result: Result<(), Error>)
    ensures
        code == 0 ==> result is Ok,
        code != 0 ==> {
            &&& result matches Err(Error::Runtime(text))
            &&& text@ == failed(call@, decimal(code as int))
            &&& text@ == call@ + " failed: "@ + decimal(code as int)
        },
{
    if code == 0 {
        Ok(())
    } else {
        let reason = display(code as i64);
        Err(failure(call, reason.as_str()))
    }
}

/// Counts a wait that ended because its time was up as a success.  `timed_out` is the code for that.
pub fn timeout_ok(code: i32, timed_out: i32) -> (counted: i32)
    ensures
        counted == if code == timed_out {
            0
        } else {
            code
        },
{
    if code == timed_out {
        0
    } else {
        code
    }
}

/// A moment as system calls take it.
#[derive(Clone, Copy, Debug, PartialEq, Eq)]
pub struct Timespec {
    /// Whole seconds.
    pub secs: u64,
    /// The nanoseconds after the last whole second.
    pub nanos: u32,
}

/// The moment `timeout` after `now`, both in nanoseconds.
pub fn wake_time(now: u128, timeout: u128) -> (moment: Timespec)
    requires
        now + timeout < (u64::MAX + 1) * NANOS_PER_SEC,
    ensures
        moment.nanos < NANOS_PER_SEC,
        moment.secs * NANOS_PER_SEC + moment.nanos == now + timeout,
        moment.nanos < 1_000_000_000,
        moment.secs * 1_000_000_000 + moment.nanos == now + timeout,
{
    let then: u128 = now + timeout;
    Timespec { secs: (then / NANOS_PER_SEC) as u64, nanos: (then % NANOS_PER_SEC) as u32 }
}

} // verus!
