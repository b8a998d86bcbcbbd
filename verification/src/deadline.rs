//! How long an operation is prepared to wait.
//!
//! Times are nanoseconds since some fixed moment, durations are nanoseconds.

use vstd::prelude::*;

verus! {

/// Whether to go on waiting.
#[derive(Clone, Copy, Debug, PartialEq, Eq)]
pub enum Patience {
    /// Wait, for this long at most, or for as long as it takes.
    Wait(Option<u128>),
    /// The deadline has passed.
    Expired,
}

/// A limit on the time that an operation waits, counted from when it first has to wait.
#[derive(Clone, Copy, Debug)]
pub struct Deadline {
    /// How long to wait, if not for as long as it takes.
    pub timeout: Option<u128>,
    /// When the waiting is over, once it has begun.
    pub at: Option<u128>,
}

impl Deadline {
    /// No moment is out of range.
    pub open spec fn can_arm(self, now: u128) -> bool {
        self.at is None && self.timeout is Some ==> now + self.timeout->Some_0 <= u128::MAX
    }

    /// The deadline once the operation has had to wait at `now`: fixed the first time, and kept
    /// from then on.
    pub open spec fn armed(self, now: u128) -> Deadline {
        if self.at is None && self.timeout is Some {
            Deadline { at: Some((now + self.timeout->Some_0) as u128), ..self }
        } else {
            self
        }
    }

    /// Whether to wait at `now`, and how long.
    pub open spec fn allows(self, now: u128) -> Patience {
        match self.at {
            None => Patience::Wait(None),
            Some(at) => if now < at {
                Patience::Wait(Some((at - now) as u128))
            } else {
                Patience::Expired
            },
        }
    }

    /// A deadline for an operation that has not waited yet.
    pub fn new(timeout: Option<u128>) -> (deadline: Deadline)
        ensures
            deadline.timeout == timeout,
            deadline.at is None,
    {
        Deadline { timeout, at: None }
    }

    /// Notes that the operation has to wait at `now`.
    pub fn arm(&mut self, now: u128)
        requires
            old(self).can_arm(now),
        ensures
            *final(self) == old(self).armed(now),
            final(self).timeout == old(self).timeout,
            final(self).at == match (old(self).at, old(self).timeout) {
                (None, Some(timeout)) => Some((now + timeout) as u128),
                (at, _) => at,
            },
    {
        if self.at.is_none() {
            if let Some(timeout) = self.timeout {
                self.at = Some(now + timeout);
            }
        }
    }

    /// Says whether to wait at `now`, and how long.
    pub fn patience(&self, now: u128) -> (patience: Patience)
        ensures
            patience == self.allows(now),
            self.at is None ==> patience == Patience::Wait(None),
            self.at is Some && now < self.at->Some_0 ==> patience == Patience::Wait(
                Some((self.at->Some_0 - now) as u128),
            ),
            self.at is Some && now >= self.at->Some_0 ==> patience == Patience::Expired,
    {
        match self.at {
            None => Patience::Wait(None),
            Some(at) => if at > now {
                Patience::Wait(Some(at - now))
            } else {
                Patience::Expired
            },
        }
    }
}

/// A deadline can be fixed at every moment from which the timeout does not run out of range, and
/// always where there is no timeout or it was fixed before.
pub proof fn every_moment_in_range_can_be_armed(deadline: Deadline, now: u128)
    ensures
        deadline.at is Some ==> deadline.can_arm(now),
        deadline.timeout is None ==> deadline.can_arm(now),
        deadline.timeout is Some && now + deadline.timeout->Some_0 <= u128::MAX
            ==> deadline.can_arm(now),
{
}

/// However often an operation has to wait, its patience ends exactly when the timeout has passed
/// since it first had to, and no wait is longer than what is left until then.  Without a timeout it
/// never ends.
pub proof fn patience_ends_with_the_timeout(
    timeout: Option<u128>,
    first: u128,
    again: u128,
    now: u128,
)
    requires
        timeout is Some ==> first + timeout->Some_0 <= u128::MAX,
    ensures
        ({
            let deadline = (Deadline { timeout, at: None }).armed(first).armed(again);
            match timeout {
                None => deadline.allows(now) == Patience::Wait(None),
                Some(timeout) => if now < first + timeout {
                    deadline.allows(now) == Patience::Wait(Some((first + timeout - now) as u128))
                } else {
                    deadline.allows(now) == Patience::Expired
                },
            }
        }),
{
}

} // verus!
