//! The receiving end of a channel.
//!
//! The receiver reads the map without the ring's lock; senders never store where it may read.  It
//! moves `read` under the lock, which makes room for senders.

use crate::buffer::{Header, SharedRingBuffer};
use crate::deadline::{Deadline, Patience};
use crate::error::Error;
use crate::frame::read_length;
use crate::laws::{receiver_finds_oldest, take_removes_oldest};
use crate::ring::{addressable_len, Ring, Step, Turn};
use vstd::prelude::*;

verus! {

/// What the receiver finds in the ring.
#[derive(Clone, Copy, Debug, PartialEq, Eq)]
pub enum Poll {
    /// A message, whose bytes lie in the map from `start` to `end`.
    Message {
        /// The first byte of the message.
        start: u32,
        /// The first byte after the message, where the receiver reads next.
        end: u32,
    },
    /// The end of a lap: `read` has to go back to the beginning.
    Rewind,
    /// Nothing.
    Empty,
}

/// The text for a length of zero where no lap can have ended.
pub open spec fn corrupt(error: Error) -> bool {
    &&& error matches Error::Runtime(text)
    &&& text@ == "corrupt ring buffer"@
}

/// The receiving end of a channel.
#[derive(Debug)]
pub struct Receiver {
    /// The ring that the messages come from.
    pub buffer: SharedRingBuffer,
}

impl Receiver {
    /// The receiving end of a ring.
    pub fn new(buffer: SharedRingBuffer) -> (receiver: Receiver)
        ensures
            receiver.buffer == buffer,
    {
        Receiver { buffer }
    }

    /// The receiver can read what the ring holds: what it reads lies within the map, and it does
    /// not follow laps without end.
    pub open spec fn can_receive(self, header: Header, map: Seq<u8>) -> bool {
        let ring = self.buffer.ring(header, map);
        &&& ring.readable()
        &&& ring.reached().readable()
        &&& ring.reached().turn() !is Rewind
    }

    /// Says whether what the receiver reads at `header.read` lies within the map.
    pub fn is_readable(&self, header: &Header, map: &[u8]) -> (readable: bool)
        ensures
            readable == self.buffer.ring(*header, map@).readable(),
            ({
                let at = header.read as int;
                let end = at + 4 + map@[at] + 0x100 * map@[at + 1] + 0x1_0000 * map@[at + 2]
                    + 0x100_0000 * map@[at + 3];
                readable <==> {
                    ||| header.read == header.write
                    ||| at + 4 <= map@.len() && at + 4 <= u32::MAX && end <= map@.len() && end
                        <= u32::MAX
                }
            }),
    {
        if header.read == header.write {
            return true;
        }
        let len: u64 = addressable_len(map.len());
        let start: u64 = header.read as u64 + 4;
        start <= len && start + read_length(map, header.read) as u64 <= len
    }

    /// Says whether the receiver can read what the ring holds.
    ///
    /// It can read every ring that senders and receivers alone have written to.
    pub fn is_receivable(&self, header: &Header, map: &[u8]) -> (receivable: bool)
        ensures
            receivable == self.can_receive(*header, map@),
            receivable <==> {
                let ring = self.buffer.ring(*header, map@);
                let next_lap = Ring { read: self.buffer.beginning as int, ..ring };
                &&& ring.readable()
                &&& ring.turn() is Rewind ==> next_lap.readable() && next_lap.turn() !is Rewind
            },
    {
        if !self.is_readable(header, map) {
            return false;
        }
        match self.poll(header, map) {
            Ok(Poll::Rewind) => {
                let next_lap = Header { read: self.buffer.beginning, ..*header };
                self.is_readable(&next_lap, map) && !matches!(
                    self.poll(&next_lap, map),
                    Ok(Poll::Rewind)
                )
            },
            _ => true,
        }
    }

    /// Looks at what lies at `header.read`.
    pub fn poll(&self, header: &Header, map: &[u8]) -> (result: Result<Poll, Error>)
        requires
            self.buffer.ring(*header, map@).readable(),
        ensures
            match self.buffer.ring(*header, map@).turn() {
                Turn::Message { start, end } => {
                    &&& result matches Ok(Poll::Message { start: first, end: next })
                    &&& first == start
                    &&& next == end
                },
                Turn::Rewind => result == Ok::<Poll, Error>(Poll::Rewind),
                Turn::Empty => result == Ok::<Poll, Error>(Poll::Empty),
                Turn::Corrupt => result is Err && corrupt(result->Err_0),
            },
            ({
                let at = header.read as int;
                let length = map@[at] + 0x100 * map@[at + 1] + 0x1_0000 * map@[at + 2] + 0x100_0000
                    * map@[at + 3];
                match result {
                    Ok(Poll::Message { start, end }) => {
                        &&& header.read != header.write
                        &&& length > 0
                        &&& start == at + 4
                        &&& end == at + 4 + length
                    },
                    Ok(Poll::Rewind) => header.write < header.read && length == 0,
                    Ok(Poll::Empty) => header.read == header.write,
                    Err(Error::Runtime(text)) => {
                        &&& header.read < header.write
                        &&& length == 0
                        &&& text@ == "corrupt ring buffer"@
                    },
                    Err(_) => false,
                }
            }),
    {
        if header.write != header.read {
            let size: u32 = read_length(map, header.read);
            if size > 0 {
                let start: u32 = header.read + 4;
                Ok(Poll::Message { start, end: start + size })
            } else if header.write < header.read {
                Ok(Poll::Rewind)
            } else {
                Err(Error::Runtime("corrupt ring buffer".to_owned()))
            }
        } else {
            Ok(Poll::Empty)
        }
    }

    /// Finds the oldest message pending and where the receiver reads next, without taking it.
    ///
    /// Moves `header.read` to the beginning if the receiver's lap ended.
    pub fn try_recv_0<'m>(&self, header: &mut Header, map: &'m [u8]) -> (result: Result<
        Option<(&'m [u8], u32)>,
        Error,
    >)
        requires
            self.can_receive(*old(header), map@),
        ensures
            final(header).flags == old(header).flags,
            final(header).write == old(header).write,
            ({
                let length = |at: int|
                    map@[at] + 0x100 * map@[at + 1] + 0x1_0000 * map@[at + 2] + 0x100_0000 * map@[at
                        + 3];
                let read = old(header).read as int;
                let write = old(header).write as int;
                let at = if write < read && length(read) == 0 {
                    self.buffer.beginning as int
                } else {
                    read
                };
                &&& final(header).read == at
                &&& match result {
                    Ok(Some((message, next))) => {
                        &&& at != write
                        &&& length(at) > 0
                        &&& next == at + 4 + length(at)
                        &&& message@ == map@.subrange(at + 4, next as int)
                    },
                    Ok(None) => at == write,
                    Err(Error::Runtime(text)) => {
                        &&& at < write
                        &&& length(at) == 0
                        &&& text@ == "corrupt ring buffer"@
                    },
                    Err(_) => false,
                }
            }),
            ({
                let before = self.buffer.ring(*old(header), map@);
                let after = self.buffer.ring(*final(header), map@);
                &&& after == before.reached()
                &&& match after.turn() {
                    Turn::Message { start, end } => {
                        &&& result matches Ok(Some((message, next)))
                        &&& message@ == map@.subrange(start, end)
                        &&& next == end
                    },
                    Turn::Corrupt => result is Err && corrupt(result->Err_0),
                    _ => result == Ok::<Option<(&'m [u8], u32)>, Error>(None),
                }
                &&& before.wf() ==> {
                    &&& after.wf()
                    &&& after.messages() == before.messages()
                    &&& match result {
                        Ok(None) => before.messages().len() == 0,
                        Ok(Some((message, _))) => {
                            &&& before.messages().len() > 0
                            &&& message@ == before.messages()[0]
                        },
                        Err(_) => false,
                    }
                }
            }),
    {
        let ghost before = self.buffer.ring(*header, map@);
        proof {
            if before.wf() {
                receiver_finds_oldest(before);
            }
        }
        let ghost mut rewound = false;
        loop
            invariant
                self.can_receive(*old(header), map@),
                before == self.buffer.ring(*old(header), map@),
                header.flags == old(header).flags,
                !rewound ==> self.buffer.ring(*header, map@) == before,
                rewound ==> before.turn() is Rewind && self.buffer.ring(*header, map@)
                    == before.reached(),
                before.wf() ==> {
                    let reached = before.reached();
                    &&& reached.wf()
                    &&& reached.messages() == before.messages()
                    &&& match reached.turn() {
                        Turn::Empty => before.messages().len() == 0,
                        Turn::Message { start, end } => {
                            &&& before.messages().len() > 0
                            &&& before.messages()[0] == before.map.subrange(start, end)
                        },
                        Turn::Rewind => false,
                        Turn::Corrupt => false,
                    }
                },
            decreases (if rewound { 0int } else { 1int }),
        {
            match self.poll(header, map) {
                Ok(Poll::Message { start, end }) => {
                    return Ok(Some((&map[start as usize..end as usize], end)));
                },
                Ok(Poll::Rewind) => {
                    header.read = self.buffer.beginning;
                    proof {
                        rewound = true;
                    }
                },
                Ok(Poll::Empty) => {
                    return Ok(None);
                },
                Err(error) => {
                    return Err(error);
                },
            }
        }
    }

    /// Moves the receiver to `position`, which makes room for senders.
    pub fn seek(&self, header: &mut Header, position: u32)
        ensures
            *final(header) == (Header { read: position, ..*old(header) }),
    {
        header.read = position;
    }

    /// Delivers the message that was found before `position`, once it was decoded, and moves the
    /// receiver past it.
    ///
    /// A message that could not be decoded gives `Bincode` and stays pending.
    pub fn deliver<T>(
        &self,
        header: &mut Header,
        decoded: Result<T, bincode::Error>,
        position: u32,
    ) -> (result: Result<T, Error>)
        ensures
            match decoded {
                Ok(value) => {
                    &&& result == Ok::<T, Error>(value)
                    &&& *final(header) == (Header { read: position, ..*old(header) })
                },
                Err(error) => {
                    &&& result == Err::<T, Error>(Error::Bincode(error))
                    &&& *final(header) == *old(header)
                },
            },
    {
        match decoded {
            Ok(value) => {
                self.seek(header, position);
                Ok(value)
            },
            Err(error) => Err(Error::Bincode(error)),
        }
    }

    /// Takes the oldest message pending, if there is one.
    ///
    /// The message is gone from the ring whatever its bytes mean.  A caller who decodes messages finds
    /// them with `try_recv_0` and takes them with `deliver`, which leaves pending what cannot be
    /// decoded.
    pub fn try_recv(&self, header: &mut Header, map: &[u8]) -> (result: Result<
        Option<Vec<u8>>,
        Error,
    >)
        requires
            self.can_receive(*old(header), map@),
        ensures
            final(header).flags == old(header).flags,
            final(header).write == old(header).write,
            ({
                let length = |at: int|
                    map@[at] + 0x100 * map@[at + 1] + 0x1_0000 * map@[at + 2] + 0x100_0000 * map@[at
                        + 3];
                let read = old(header).read as int;
                let write = old(header).write as int;
                let at = if write < read && length(read) == 0 {
                    self.buffer.beginning as int
                } else {
                    read
                };
                match result {
                    Ok(Some(message)) => {
                        &&& at != write
                        &&& length(at) > 0
                        &&& message@ == map@.subrange(at + 4, at + 4 + length(at))
                        &&& final(header).read == at + 4 + length(at)
                    },
                    Ok(None) => at == write && final(header).read == at,
                    Err(Error::Runtime(text)) => {
                        &&& at < write
                        &&& length(at) == 0
                        &&& text@ == "corrupt ring buffer"@
                        &&& final(header).read == at
                    },
                    Err(_) => false,
                }
            }),
            ({
                let before = self.buffer.ring(*old(header), map@);
                let after = self.buffer.ring(*final(header), map@);
                &&& match before.reached().turn() {
                    Turn::Message { start, end } => {
                        &&& result matches Ok(Some(message))
                        &&& message@ == map@.subrange(start, end)
                        &&& after == before.reached().apply(Step::Take)
                    },
                    Turn::Corrupt => {
                        &&& result is Err
                        &&& corrupt(result->Err_0)
                        &&& after == before.reached()
                    },
                    _ => {
                        &&& result == Ok::<Option<Vec<u8>>, Error>(None)
                        &&& after == before.reached()
                    },
                }
                &&& before.wf() ==> {
                    &&& after.wf()
                    &&& match result {
                        Ok(None) => {
                            &&& before.messages().len() == 0
                            &&& after.messages().len() == 0
                        },
                        Ok(Some(message)) => {
                            &&& before.messages().len() > 0
                            &&& message@ == before.messages()[0]
                            &&& after.messages() == before.messages().drop_first()
                        },
                        Err(_) => false,
                    }
                }
            }),
    {
        match self.try_recv_0(header, map) {
            Ok(Some((message, position))) => {
                let ghost reached = self.buffer.ring(*header, map@);
                self.seek(header, position);
                proof {
                    if reached.wf() {
                        take_removes_oldest(reached);
                    }
                }
                Ok(Some(vstd::slice::slice_to_vec(message)))
            },
            Ok(None) => Ok(None),
            Err(error) => Err(error),
        }
    }

    /// Begins to receive a message from this receiver's ring, waiting for as long as it takes.
    pub fn recv(&self) -> (receiving: Receiving<'_>)
        ensures
            receiving.begun(*self, None),
            *receiving.receiver == *self,
            receiving.deadline.timeout is None,
            receiving.deadline.at is None,
    {
        Receiving { receiver: self, deadline: Deadline::new(None) }
    }

    /// Begins to receive a message from this receiver's ring, waiting for up to `timeout`.
    pub fn recv_timeout(&self, timeout: u128) -> (receiving: Receiving<'_>)
        ensures
            receiving.begun(*self, Some(timeout)),
            *receiving.receiver == *self,
            receiving.deadline.timeout == Some(timeout),
            receiving.deadline.at is None,
    {
        Receiving { receiver: self, deadline: Deadline::new(Some(timeout)) }
    }

    /// Borrows this receiver to receive one message without copying it out of the map.
    ///
    /// The message lies in the ring until the context is done with, and only then does the receiver
    /// move past it.
    pub fn zero_copy_context(&mut self) -> (context: ZeroCopyContext<'_>)
        ensures
            *context.receiver == *old(self),
            context.position is None,
            *final(self) == *old(self),
    {
        ZeroCopyContext { receiver: &*self, position: None }
    }
}

/// A message leaves the ring when it is delivered, and not before.  One that could not be decoded
/// stays where it is: it is still the oldest message pending, and the receiver finds it again.
pub proof fn undecoded_message_stays_pending(
    receiver: Receiver,
    header: Header,
    map: Seq<u8>,
    position: u32,
    decoded: bool,
)
    requires
        receiver.buffer.ring(header, map).wf(),
        receiver.buffer.ring(header, map).turn() matches Turn::Message { end, .. } && end
            == position,
    ensures
        ({
            let found = receiver.buffer.ring(header, map);
            let header = if decoded {
                Header { read: position, ..header }
            } else {
                header
            };
            let after = receiver.buffer.ring(header, map);
            &&& after.wf()
            &&& decoded ==> after.messages() == found.messages().drop_first()
            &&& !decoded ==> after.messages() == found.messages() && after.turn() == found.turn()
        }),
{
    take_removes_oldest(receiver.buffer.ring(header, map));
}

/// What to do after the receiver has found nothing.
#[derive(Clone, Copy, Debug, PartialEq, Eq)]
pub enum Verdict {
    /// A message may have arrived: look again.
    Retry,
    /// Wait to be notified, for this long at most, or for as long as it takes.
    Wait(Option<u128>),
    /// Give up: there was no message in time.
    GiveUp,
}

/// The wait for a message.
///
/// The caller looks with `receiver`, first of all and whenever it is told to look again.
pub struct Receiving<'a> {
    /// The receiver that waits, whose ring the message is looked for in.
    pub receiver: &'a Receiver,
    /// How long to wait.
    pub deadline: Deadline,
}

impl<'a> Receiving<'a> {
    /// The wait has just been asked for, and nothing was looked for yet.
    pub open spec fn begun(self, receiver: Receiver, timeout: Option<u128>) -> bool {
        &&& *self.receiver == receiver
        &&& self.deadline == Deadline { timeout, at: None }
    }

    /// What to do at `now` with these positions.
    pub open spec fn verdict(self, read: u32, write: u32, now: u128) -> Verdict {
        if read != write {
            Verdict::Retry
        } else {
            match self.deadline.allows(now) {
                Patience::Wait(limit) => Verdict::Wait(limit),
                Patience::Expired => Verdict::GiveUp,
            }
        }
    }

    /// Notes that the receiver found nothing, at `now`.
    ///
    /// The timeout counts from the first such moment.
    pub fn found_nothing(&mut self, now: u128)
        requires
            old(self).deadline.can_arm(now),
        ensures
            final(self).deadline == old(self).deadline.armed(now),
            final(self).receiver == old(self).receiver,
            final(self).deadline.timeout == old(self).deadline.timeout,
            final(self).deadline.at == match (old(self).deadline.at, old(self).deadline.timeout) {
                (None, Some(timeout)) => Some((now + timeout) as u128),
                (at, _) => at,
            },
    {
        self.deadline.arm(now);
    }

    /// Says what to do next: look again if `write` has moved, else wait, else give up.
    ///
    /// The caller holds the lock, so that no notification is missed.
    pub fn next(&self, read: u32, write: u32, now: u128) -> (verdict: Verdict)
        ensures
            verdict == self.verdict(read, write, now),
            verdict == if read != write {
                Verdict::Retry
            } else {
                match self.deadline.at {
                    None => Verdict::Wait(None),
                    Some(at) => if now < at {
                        Verdict::Wait(Some((at - now) as u128))
                    } else {
                        Verdict::GiveUp
                    },
                }
            },
    {
        if read == write {
            match self.deadline.patience(now) {
                Patience::Wait(limit) => Verdict::Wait(limit),
                Patience::Expired => Verdict::GiveUp,
            }
        } else {
            Verdict::Retry
        }
    }
}

/// A receiver gives up only where nothing is pending and its timeout has passed since it first found
/// nothing; without a timeout it never does.  While nothing is pending and there is time, it waits,
/// and no longer than until the timeout; once `write` has moved it looks again, whatever the time.
pub proof fn gives_up_in_time(
    receiver: &Receiver,
    timeout: Option<u128>,
    first: u128,
    again: u128,
    read: u32,
    write: u32,
    now: u128,
)
    requires
        timeout is Some ==> first + timeout->Some_0 <= u128::MAX,
    ensures
        ({
            let deadline = (Deadline { timeout, at: None }).armed(first).armed(again);
            let verdict = (Receiving { receiver, deadline }).verdict(read, write, now);
            if read != write {
                verdict == Verdict::Retry
            } else {
                match timeout {
                    None => verdict == Verdict::Wait(None),
                    Some(timeout) => if now < first + timeout {
                        verdict == Verdict::Wait(Some((first + timeout - now) as u128))
                    } else {
                        verdict == Verdict::GiveUp
                    },
                }
            }
        }),
{
}

/// A receiver with a timeout waits for a message for exactly that long from the moment that it first
/// found nothing, with or without a context: until then it waits for what is left, from then on it gives
/// up.  Once `write` has moved it looks again, whatever the time.
pub proof fn recv_timeout_waits_for_the_timeout<'a>(
    receiver: &'a Receiver,
    context: &ZeroCopyContext<'a>,
    timeout: u128,
    receiving: Receiving<'a>,
    first: u128,
    again: u128,
    waiting: Receiving<'a>,
    read: u32,
    write: u32,
    now: u128,
    verdict: Verdict,
)
    requires
        call_ensures(Receiver::recv_timeout, (receiver, timeout), receiving) || (context.position
            is None && call_ensures(
            ZeroCopyContext::recv_timeout,
            (context, timeout),
            Ok::<Receiving<'a>, Error>(receiving),
        )),
        first + timeout <= u128::MAX,
        waiting.deadline == receiving.deadline.armed(first) || waiting.deadline
            == receiving.deadline.armed(first).armed(again),
        call_ensures(Receiving::next, (&waiting, read, write, now), verdict),
    ensures
        receiving.deadline.timeout == Some(timeout),
        receiving.deadline.at is None,
        receiving.deadline.can_arm(first),
        waiting.deadline.can_arm(again),
        read != write ==> verdict == Verdict::Retry,
        read == write && now < first + timeout ==> verdict == Verdict::Wait(
            Some((first + timeout - now) as u128),
        ),
        read == write && now >= first + timeout ==> verdict == Verdict::GiveUp,
{
}

/// A receiver without a timeout never gives up, with or without a context: it waits for as long as
/// nothing has arrived.
pub proof fn recv_never_gives_up<'a>(
    receiver: &'a Receiver,
    context: &ZeroCopyContext<'a>,
    receiving: Receiving<'a>,
    first: u128,
    waiting: Receiving<'a>,
    read: u32,
    write: u32,
    now: u128,
    verdict: Verdict,
)
    requires
        call_ensures(Receiver::recv, (receiver,), receiving) || (context.position is None
            && call_ensures(
            ZeroCopyContext::recv,
            (context,),
            Ok::<Receiving<'a>, Error>(receiving),
        )),
        waiting.deadline == receiving.deadline || waiting.deadline == receiving.deadline.armed(
            first,
        ),
        call_ensures(Receiving::next, (&waiting, read, write, now), verdict),
    ensures
        receiving.deadline.timeout is None,
        receiving.deadline.at is None,
        receiving.deadline.can_arm(first),
        read != write ==> verdict == Verdict::Retry,
        read == write ==> verdict == Verdict::Wait(None),
{
}

/// A receiver looks in its own ring, with or without a context.
pub proof fn receivers_look_in_their_own_ring<'a>(
    receiver: &'a Receiver,
    context: &ZeroCopyContext<'a>,
    timeout: u128,
    receiving: Receiving<'a>,
)
    requires
        *context.receiver == *receiver,
        context.position is None,
        call_ensures(Receiver::recv, (receiver,), receiving) || call_ensures(
            Receiver::recv_timeout,
            (receiver, timeout),
            receiving,
        ) || call_ensures(
            ZeroCopyContext::recv,
            (context,),
            Ok::<Receiving<'a>, Error>(receiving),
        ) || call_ensures(
            ZeroCopyContext::recv_timeout,
            (context, timeout),
            Ok::<Receiving<'a>, Error>(receiving),
        ),
    ensures
        *receiving.receiver == *receiver,
{
}

/// Looking at a well-formed ring gives the oldest message pending, or the end of a lap, or nothing
/// where nothing is pending; it never gives an error.
pub proof fn poll_gives_the_oldest(
    receiver: &Receiver,
    header: Header,
    map: &[u8],
    result: Result<Poll, Error>,
)
    requires
        receiver.buffer.ring(header, map@).wf(),
        call_ensures(Receiver::poll, (receiver, &header, map), result),
    ensures
        ({
            let pending = receiver.buffer.ring(header, map@).messages();
            match result {
                Ok(Poll::Message { start, end }) => {
                    &&& pending.len() > 0
                    &&& map@.subrange(start as int, end as int) == pending[0]
                    &&& start == header.read + 4
                    &&& end == header.read + 4 + pending[0].len()
                },
                Ok(Poll::Rewind) => {
                    &&& header.write < header.read
                    &&& receiver.buffer.ring(
                        Header { read: receiver.buffer.beginning, ..header },
                        map@,
                    ).messages() == pending
                },
                Ok(Poll::Empty) => pending.len() == 0 && header.read == header.write,
                Err(_) => false,
            }
        }),
{
    receiver_finds_oldest(receiver.buffer.ring(header, map@));
}

/// Every well-formed ring can be received from.
pub proof fn well_formed_ring_is_receivable(
    receiver: &Receiver,
    header: Header,
    map: &[u8],
    receivable: bool,
)
    requires
        receiver.buffer.ring(header, map@).wf(),
        call_ensures(Receiver::is_receivable, (receiver, &header, map), receivable),
    ensures
        receivable,
        receiver.can_receive(header, map@),
{
    receiver_finds_oldest(receiver.buffer.ring(header, map@));
}

/// A receiver that is borrowed to receive one message without copying it.
pub struct ZeroCopyContext<'a> {
    /// The borrowed receiver.
    pub receiver: &'a Receiver,
    /// Where the receiver reads next, once a message was received.
    pub position: Option<u32>,
}

impl<'a> ZeroCopyContext<'a> {
    /// Finds the oldest message pending, if there is one, and borrows it from the map.
    ///
    /// A context that has received a message gives `AlreadyReceived`.  The message cannot outlive the
    /// borrow of the context.
    ///
    /// The context is used up whatever the message's bytes mean.  A caller who decodes messages finds
    /// them with the receiver's `try_recv_0` and notes them with `deliver`, which leaves the context
    /// unused where a message cannot be decoded.
    pub fn try_recv<'b>(&'b mut self, header: &mut Header, map: &'b [u8]) -> (result: Result<
        Option<&'b [u8]>,
        Error,
    >)
        requires
            old(self).receiver.can_receive(*old(header), map@),
        ensures
            final(self).receiver == old(self).receiver,
            final(header).flags == old(header).flags,
            final(header).write == old(header).write,
            old(self).position is None ==> {
                let length = |at: int|
                    map@[at] + 0x100 * map@[at + 1] + 0x1_0000 * map@[at + 2] + 0x100_0000 * map@[at
                        + 3];
                let read = old(header).read as int;
                let write = old(header).write as int;
                let at = if write < read && length(read) == 0 {
                    old(self).receiver.buffer.beginning as int
                } else {
                    read
                };
                &&& final(header).read == at
                &&& match result {
                    Ok(Some(message)) => {
                        &&& at != write
                        &&& length(at) > 0
                        &&& message@ == map@.subrange(at + 4, at + 4 + length(at))
                        &&& final(self).position == Some((at + 4 + length(at)) as u32)
                    },
                    Ok(None) => at == write && final(self).position is None,
                    Err(Error::Runtime(text)) => {
                        &&& at < write
                        &&& length(at) == 0
                        &&& text@ == "corrupt ring buffer"@
                        &&& final(self).position is None
                    },
                    Err(_) => false,
                }
            },
            old(self).position is Some ==> {
                &&& result == Err::<Option<&'b [u8]>, Error>(Error::AlreadyReceived)
                &&& final(self).position == old(self).position
                &&& *final(header) == *old(header)
            },
            old(self).position is None ==> {
                let before = old(self).receiver.buffer.ring(*old(header), map@);
                let after = old(self).receiver.buffer.ring(*final(header), map@);
                &&& after == before.reached()
                &&& match after.turn() {
                    Turn::Message { start, end } => {
                        &&& result matches Ok(Some(message))
                        &&& message@ == map@.subrange(start, end)
                        &&& final(self).position == Some(end as u32)
                    },
                    Turn::Corrupt => {
                        &&& result is Err
                        &&& corrupt(result->Err_0)
                        &&& final(self).position is None
                    },
                    _ => {
                        &&& result == Ok::<Option<&'b [u8]>, Error>(None)
                        &&& final(self).position is None
                    },
                }
                &&& before.wf() ==> {
                    &&& after.wf()
                    &&& after.messages() == before.messages()
                    &&& match result {
                        Ok(None) => before.messages().len() == 0,
                        Ok(Some(message)) => {
                            &&& before.messages().len() > 0
                            &&& message@ == before.messages()[0]
                        },
                        Err(_) => false,
                    }
                }
            },
    {
        if self.position.is_some() {
            return Err(Error::AlreadyReceived);
        }
        match self.receiver.try_recv_0(header, map) {
            Ok(Some((message, position))) => {
                self.position = Some(position);
                Ok(Some(message))
            },
            Ok(None) => Ok(None),
            Err(error) => Err(error),
        }
    }

    /// Begins to receive the message, waiting for as long as it takes.
    ///
    /// A context that has received a message gives `AlreadyReceived`.
    pub fn recv(&self) -> (result: Result<Receiving<'a>, Error>)
        ensures
            self.position is Some ==> result == Err::<Receiving<'a>, Error>(Error::AlreadyReceived),
            self.position is None ==> {
                &&& result is Ok
                &&& result->Ok_0.begun(*self.receiver, None)
                &&& *result->Ok_0.receiver == *self.receiver
                &&& result->Ok_0.deadline.timeout is None
                &&& result->Ok_0.deadline.at is None
            },
    {
        if self.position.is_some() {
            Err(Error::AlreadyReceived)
        } else {
            Ok(self.receiver.recv())
        }
    }

    /// Begins to receive the message, waiting for up to `timeout`.
    ///
    /// A context that has received a message gives `AlreadyReceived`.
    pub fn recv_timeout(&self, timeout: u128) -> (result: Result<Receiving<'a>, Error>)
        ensures
            self.position is Some ==> result == Err::<Receiving<'a>, Error>(Error::AlreadyReceived),
            self.position is None ==> {
                &&& result is Ok
                &&& result->Ok_0.begun(*self.receiver, Some(timeout))
                &&& *result->Ok_0.receiver == *self.receiver
                &&& result->Ok_0.deadline.timeout == Some(timeout)
                &&& result->Ok_0.deadline.at is None
            },
    {
        if self.position.is_some() {
            Err(Error::AlreadyReceived)
        } else {
            Ok(self.receiver.recv_timeout(timeout))
        }
    }

    /// Notes that the message was received, and that the receiver reads next at `position`.
    pub fn received(&mut self, position: u32)
        requires
            old(self).position is None,
        ensures
            final(self).receiver == old(self).receiver,
            final(self).position == Some(position),
    {
        self.position = Some(position);
    }

    /// Delivers the message that was found before `position`, once it was decoded, and notes that it
    /// was received.
    ///
    /// A message that could not be decoded gives `Bincode`, and the context can still receive.
    pub fn deliver<T>(&mut self, decoded: Result<T, bincode::Error>, position: u32) -> (result:
        Result<T, Error>)
        requires
            old(self).position is None,
        ensures
            final(self).receiver == old(self).receiver,
            match decoded {
                Ok(value) => {
                    &&& result == Ok::<T, Error>(value)
                    &&& final(self).position == Some(position)
                },
                Err(error) => {
                    &&& result == Err::<T, Error>(Error::Bincode(error))
                    &&& final(self).position is None
                },
            },
    {
        match decoded {
            Ok(value) => {
                self.received(position);
                Ok(value)
            },
            Err(error) => Err(Error::Bincode(error)),
        }
    }

    /// Moves the receiver past the message that was received, if there was one, and says whether
    /// there was.  The context is done with.
    pub fn finish(self, header: &mut Header) -> (moved: bool)
        ensures
            moved == (self.position is Some),
            *final(header) == match self.position {
                Some(position) => Header { read: position, ..*old(header) },
                None => *old(header),
            },
    {
        match self.position {
            Some(position) => {
                self.receiver.seek(header, position);
                true
            },
            None => false,
        }
    }
}

} // verus!
