//! The sending end of a channel.
//!
//! Sending a message may take several looks at the ring, with waits in between.  Whoever holds the
//! ring's lock and its memory drives a [`Sending`]: it hands over the header and the map at each
//! look, publishes the header that comes back, and waits when it is told to.

use crate::buffer::{Header, SharedRingBuffer};
use crate::deadline::{Deadline, Patience};
use crate::error::Error;
use crate::frame::{write_frame, write_length};
use crate::laws::{
    drained_ring_accepts, placement_is_allowed, put_appends, sender_stays_within_map,
    waits_until_empty, wrap_keeps,
};
use crate::ring::{addressable, addressable_len, Placement, Step};
use vstd::prelude::*;

verus! {

/// The sending end of a channel.
#[derive(Clone, Copy, Debug)]
pub struct Sender {
    /// The ring that the messages go to.
    pub buffer: SharedRingBuffer,
}

impl Sender {
    /// The size of the largest message that a ring in a map of this length can store.
    pub open spec fn capacity(self, map_len: int) -> int {
        addressable(map_len) - self.buffer.beginning - 8
    }

    /// The error for a message of a size that can never be sent.
    pub open spec fn refusal(self, map_len: int, size: int) -> Option<Error> {
        if size == 0 {
            Some(Error::ZeroSizedMessage)
        } else if size > self.capacity(map_len) {
            Some(Error::MessageTooLarge)
        } else {
            None
        }
    }

    /// The sending end of a ring.
    pub fn new(buffer: SharedRingBuffer) -> (sender: Sender)
        ensures
            sender.buffer == buffer,
    {
        Sender { buffer }
    }

    /// Checks that a message of this size can be sent through a ring in a map of this length.
    ///
    /// An empty message gives `ZeroSizedMessage`; one that is larger than the ring's capacity gives
    /// `MessageTooLarge`.
    pub fn check_size(&self, map_len: usize, size: u64) -> (result: Result<u32, Error>)
        ensures
            match self.refusal(map_len as int, size as int) {
                Some(error) => result == Err::<u32, Error>(error),
                None => result is Ok && result->Ok_0 == size,
            },
            match result {
                Ok(accepted) => {
                    &&& accepted == size
                    &&& 0 < size
                    &&& self.buffer.beginning + size + 8 <= map_len
                    &&& self.buffer.beginning + size + 8 <= u32::MAX
                },
                Err(Error::ZeroSizedMessage) => size == 0,
                Err(Error::MessageTooLarge) => {
                    &&& 0 < size
                    &&& {
                        ||| self.buffer.beginning + size + 8 > map_len
                        ||| self.buffer.beginning + size + 8 > u32::MAX
                    }
                },
                Err(_) => false,
            },
    {
        if size == 0 {
            return Err(Error::ZeroSizedMessage);
        }
        let len: u64 = addressable_len(map_len);
        let reserved: u64 = self.buffer.beginning as u64 + 8;
        if len < reserved || len - reserved < size {
            return Err(Error::MessageTooLarge);
        }
        Ok(size as u32)
    }

    /// Begins to send a message, waiting for as long as it takes for contiguous room.
    ///
    /// `payload` is the serialized message.
    pub fn send<'a>(&self, map_len: usize, payload: &'a [u8]) -> (result: Result<
        Sending<'a>,
        Error,
    >)
        ensures
            match self.refusal(map_len as int, payload@.len() as int) {
                Some(error) => result == Err::<Sending<'a>, Error>(error),
                None => result is Ok && result->Ok_0.begun(*self, payload@, false, None),
            },
            match result {
                Ok(sending) => {
                    &&& 0 < payload@.len()
                    &&& self.buffer.beginning + payload@.len() + 8 <= map_len
                    &&& self.buffer.beginning + payload@.len() + 8 <= u32::MAX
                    &&& sending.sender == *self
                    &&& sending.payload@ == payload@
                    &&& sending.wait_until_empty == false
                    &&& sending.deadline.timeout == None::<u128>
                    &&& sending.deadline.at is None
                },
                Err(Error::ZeroSizedMessage) => payload@.len() == 0,
                Err(Error::MessageTooLarge) => {
                    &&& 0 < payload@.len()
                    &&& {
                        ||| self.buffer.beginning + payload@.len() + 8 > map_len
                        ||| self.buffer.beginning + payload@.len() + 8 > u32::MAX
                    }
                },
                Err(_) => false,
            },
    {
        self.begin(map_len, payload, false, None)
    }

    /// Begins to send a message, waiting for contiguous room for up to `timeout`.
    pub fn send_timeout<'a>(&self, map_len: usize, payload: &'a [u8], timeout: u128) -> (result:
        Result<Sending<'a>, Error>)
        ensures
            match self.refusal(map_len as int, payload@.len() as int) {
                Some(error) => result == Err::<Sending<'a>, Error>(error),
                None => result is Ok && result->Ok_0.begun(*self, payload@, false, Some(timeout)),
            },
            match result {
                Ok(sending) => {
                    &&& 0 < payload@.len()
                    &&& self.buffer.beginning + payload@.len() + 8 <= map_len
                    &&& self.buffer.beginning + payload@.len() + 8 <= u32::MAX
                    &&& sending.sender == *self
                    &&& sending.payload@ == payload@
                    &&& sending.wait_until_empty == false
                    &&& sending.deadline.timeout == Some(timeout)
                    &&& sending.deadline.at is None
                },
                Err(Error::ZeroSizedMessage) => payload@.len() == 0,
                Err(Error::MessageTooLarge) => {
                    &&& 0 < payload@.len()
                    &&& {
                        ||| self.buffer.beginning + payload@.len() + 8 > map_len
                        ||| self.buffer.beginning + payload@.len() + 8 > u32::MAX
                    }
                },
                Err(_) => false,
            },
    {
        self.begin(map_len, payload, false, Some(timeout))
    }

    /// Begins to send a message once the ring is empty, waiting for as long as it takes.
    pub fn send_when_empty<'a>(&self, map_len: usize, payload: &'a [u8]) -> (result: Result<
        Sending<'a>,
        Error,
    >)
        ensures
            match self.refusal(map_len as int, payload@.len() as int) {
                Some(error) => result == Err::<Sending<'a>, Error>(error),
                None => result is Ok && result->Ok_0.begun(*self, payload@, true, None),
            },
            match result {
                Ok(sending) => {
                    &&& 0 < payload@.len()
                    &&& self.buffer.beginning + payload@.len() + 8 <= map_len
                    &&& self.buffer.beginning + payload@.len() + 8 <= u32::MAX
                    &&& sending.sender == *self
                    &&& sending.payload@ == payload@
                    &&& sending.wait_until_empty == true
                    &&& sending.deadline.timeout == None::<u128>
                    &&& sending.deadline.at is None
                },
                Err(Error::ZeroSizedMessage) => payload@.len() == 0,
                Err(Error::MessageTooLarge) => {
                    &&& 0 < payload@.len()
                    &&& {
                        ||| self.buffer.beginning + payload@.len() + 8 > map_len
                        ||| self.buffer.beginning + payload@.len() + 8 > u32::MAX
                    }
                },
                Err(_) => false,
            },
    {
        self.begin(map_len, payload, true, None)
    }

    /// Begins to send a message.
    fn begin<'a>(
        &self,
        map_len: usize,
        payload: &'a [u8],
        wait_until_empty: bool,
        timeout: Option<u128>,
    ) -> (result: Result<Sending<'a>, Error>)
        ensures
            match self.refusal(map_len as int, payload@.len() as int) {
                Some(error) => result == Err::<Sending<'a>, Error>(error),
                None => result is Ok && result->Ok_0.begun(
                    *self,
                    payload@,
                    wait_until_empty,
                    timeout,
                ),
            },
            match result {
                Ok(sending) => {
                    &&& 0 < payload@.len()
                    &&& self.buffer.beginning + payload@.len() + 8 <= map_len
                    &&& self.buffer.beginning + payload@.len() + 8 <= u32::MAX
                    &&& sending.sender == *self
                    &&& sending.payload@ == payload@
                    &&& sending.wait_until_empty == wait_until_empty
                    &&& sending.deadline.timeout == timeout
                    &&& sending.deadline.at is None
                },
                Err(Error::ZeroSizedMessage) => payload@.len() == 0,
                Err(Error::MessageTooLarge) => {
                    &&& 0 < payload@.len()
                    &&& {
                        ||| self.buffer.beginning + payload@.len() + 8 > map_len
                        ||| self.buffer.beginning + payload@.len() + 8 > u32::MAX
                    }
                },
                Err(_) => false,
            },
    {
        match self.check_size(map_len, payload.len() as u64) {
            Ok(_) => Ok(
                Sending {
                    sender: *self,
                    payload,
                    wait_until_empty,
                    deadline: Deadline::new(timeout),
                },
            ),
            Err(error) => Err(error),
        }
    }
}

/// A message on its way into the ring.
pub struct Sending<'a> {
    /// The end that sends it.
    pub sender: Sender,
    /// The serialized message.
    pub payload: &'a [u8],
    /// Whether the ring must be empty first.
    pub wait_until_empty: bool,
    /// How long to wait for room.
    pub deadline: Deadline,
}

impl<'a> Sending<'a> {
    /// The message has just been handed over, and nothing was done yet.
    pub open spec fn begun(
        self,
        sender: Sender,
        payload: Seq<u8>,
        wait_until_empty: bool,
        timeout: Option<u128>,
    ) -> bool {
        &&& self.sender == sender
        &&& self.payload@ == payload
        &&& self.wait_until_empty == wait_until_empty
        &&& self.deadline == Deadline { timeout, at: None }
    }

    /// The message can be sent through a ring in a map of this length.
    pub open spec fn valid(self, map_len: int) -> bool {
        self.sender.refusal(map_len, self.payload@.len() as int) is None
    }

    /// What becomes of the message in this state of the ring.
    pub open spec fn placement(self, header: Header, map: Seq<u8>) -> Placement {
        self.sender.buffer.ring(header, map).placement(
            self.payload@.len() as int,
            self.wait_until_empty,
        )
    }

    /// What is stored for this placement lies within the map.
    pub open spec fn within_map(self, header: Header, map: Seq<u8>) -> bool {
        match self.placement(header, map) {
            Placement::Write => header.write + 4 + self.payload@.len() <= map.len(),
            Placement::Wrap => header.write + 4 <= map.len(),
            Placement::Wait => true,
        }
    }

    /// Looks at the positions and says what becomes of the message.
    pub fn look(&self, header: &Header, map: &[u8]) -> (placement: Placement)
        ensures
            placement == self.placement(*header, map@),
            ({
                let end = header.write + self.payload@.len() + 8;
                let room = if header.write < header.read {
                    end <= header.read
                } else {
                    end <= map@.len() && end <= u32::MAX
                };
                let may_store = header.read == header.write || !self.wait_until_empty;
                &&& placement is Write <==> may_store && room
                &&& placement is Wrap <==> {
                    &&& may_store
                    &&& !room
                    &&& header.read <= header.write
                    &&& header.read != self.sender.buffer.beginning
                }
            }),
    {
        let size: u64 = self.payload.len() as u64;
        let end: u64 = addressable_len(map.len());
        let read: u64 = header.read as u64;
        let write: u64 = header.write as u64;
        if write == read || (write > read && !self.wait_until_empty) {
            if fits(write, size, end) {
                return Placement::Write;
            } else if header.read != self.sender.buffer.beginning {
                return Placement::Wrap;
            }
        } else if fits(write, size, read) && !self.wait_until_empty {
            return Placement::Write;
        }
        Placement::Wait
    }

    /// Says whether what is stored now lies within the map.
    ///
    /// It does in every ring that senders and receivers alone have written to.
    pub fn is_within_map(&self, header: &Header, map: &[u8]) -> (within: bool)
        ensures
            within == self.within_map(*header, map@),
            !within <==> match self.placement(*header, map@) {
                Placement::Write => header.write + 4 + self.payload@.len() > map@.len(),
                Placement::Wrap => header.write + 4 > map@.len(),
                Placement::Wait => false,
            },
    {
        let write: u64 = header.write as u64;
        let len: u64 = map.len() as u64;
        match self.look(header, map) {
            Placement::Write => write + 4 <= len && self.payload.len() as u64 <= len - write - 4,
            Placement::Wrap => write + 4 <= len,
            Placement::Wait => true,
        }
    }

    /// Looks at the ring and does what can be done now: stores the message and moves `write` past
    /// it, or ends the lap and moves `write` to the beginning, or leaves everything as it is.
    ///
    /// The caller holds the lock, and publishes `header.write` if it changed.
    pub fn place(&self, header: &mut Header, map: &mut [u8]) -> (placement: Placement)
        requires
            self.valid(old(map)@.len() as int),
            self.within_map(*old(header), old(map)@),
        ensures
            placement == self.placement(*old(header), old(map)@),
            final(header).flags == old(header).flags,
            final(header).read == old(header).read,
            final(map)@.len() == old(map)@.len(),
            ({
                let at = old(header).write as int;
                let size = self.payload@.len() as int;
                match placement {
                    Placement::Write => {
                        &&& final(header).write == at + 4 + size
                        &&& final(map)@[at] + 0x100 * final(map)@[at + 1] + 0x1_0000 * final(map)@[at
                            + 2] + 0x100_0000 * final(map)@[at + 3] == size
                        &&& forall|i: int|
                            0 <= i < size ==> final(map)@[at + 4 + i] == #[trigger] self.payload@[i]
                        &&& forall|i: int|
                            0 <= i < at || at + 4 + size <= i < old(map)@.len()
                                ==> #[trigger] final(map)@[i] == old(map)@[i]
                    },
                    Placement::Wrap => {
                        &&& final(header).write == self.sender.buffer.beginning
                        &&& forall|i: int| at <= i < at + 4 ==> #[trigger] final(map)@[i] == 0
                        &&& forall|i: int|
                            0 <= i < at || at + 4 <= i < old(map)@.len()
                                ==> #[trigger] final(map)@[i] == old(map)@[i]
                    },
                    Placement::Wait => {
                        &&& final(header).write == old(header).write
                        &&& final(map)@ == old(map)@
                    },
                }
            }),
            ({
                let before = self.sender.buffer.ring(*old(header), old(map)@);
                let after = self.sender.buffer.ring(*final(header), final(map)@);
                &&& match placement {
                    Placement::Write => after == before.apply(Step::Put(self.payload@)),
                    Placement::Wrap => after == before.apply(Step::Wrap),
                    Placement::Wait => after == before,
                }
                &&& before.wf() ==> after.wf()
                &&& before.wf() ==> after.messages() == if placement is Write {
                    before.messages().push(self.payload@)
                } else {
                    before.messages()
                }
            }),
    {
        let ghost before = self.sender.buffer.ring(*header, map@);
        let placement = self.look(header, map);
        proof {
            placement_is_allowed(before, self.payload@, self.wait_until_empty);
        }
        match placement {
            Placement::Write => {
                let end: u64 = header.write as u64 + 4 + self.payload.len() as u64;
                write_frame(map, header.write, self.payload);
                header.write = end as u32;
                proof {
                    if before.wf() {
                        put_appends(before, self.payload@);
                    }
                }
            },
            Placement::Wrap => {
                write_length(map, header.write, 0);
                header.write = self.sender.buffer.beginning;
                proof {
                    if before.wf() {
                        wrap_keeps(before);
                    }
                }
            },
            Placement::Wait => {},
        }
        placement
    }

    /// Says whether to go on waiting for room at `now`, and how long.
    ///
    /// The timeout counts from the first such moment.
    pub fn wait(&mut self, now: u128) -> (patience: Patience)
        requires
            old(self).deadline.can_arm(now),
        ensures
            final(self).deadline == old(self).deadline.armed(now),
            patience == final(self).deadline.allows(now),
            final(self).deadline.timeout == old(self).deadline.timeout,
            final(self).deadline.at == match (old(self).deadline.at, old(self).deadline.timeout) {
                (None, Some(timeout)) => Some((now + timeout) as u128),
                (at, _) => at,
            },
            match final(self).deadline.at {
                None => patience == Patience::Wait(None),
                Some(at) => if now < at {
                    patience == Patience::Wait(Some((at - now) as u128))
                } else {
                    patience == Patience::Expired
                },
            },
            final(self).sender == old(self).sender,
            final(self).payload == old(self).payload,
            final(self).wait_until_empty == old(self).wait_until_empty,
    {
        self.deadline.arm(now);
        self.deadline.patience(now)
    }
}

/// A message is refused only where it can never be sent: as empty where it has no bytes, and as too
/// large where it and the two lengths around it do not fit between the beginning of the ring and the
/// end of the map, or beyond what positions can address.
pub proof fn only_impossible_messages_are_refused(
    sender: &Sender,
    map_len: usize,
    size: u64,
    result: Result<u32, Error>,
)
    requires
        call_ensures(Sender::check_size, (sender, map_len, size), result),
    ensures
        0 < size && sender.buffer.beginning + size + 8 <= map_len && sender.buffer.beginning + size
            + 8 <= u32::MAX ==> result is Ok && result->Ok_0 == size,
        size == 0 ==> result == Err::<u32, Error>(Error::ZeroSizedMessage),
        0 < size && (sender.buffer.beginning + size + 8 > map_len || sender.buffer.beginning + size
            + 8 > u32::MAX) ==> result == Err::<u32, Error>(Error::MessageTooLarge),
{
}

/// Every way of sending accepts the same messages: all that have bytes and fit, with the two lengths
/// around them, between the beginning of the ring and the end of the map, as far as positions can
/// address it.
pub proof fn every_possible_message_is_accepted<'a>(
    sender: &Sender,
    map_len: usize,
    payload: &'a [u8],
    timeout: u128,
    sent: Result<Sending<'a>, Error>,
    sent_in_time: Result<Sending<'a>, Error>,
    sent_when_empty: Result<Sending<'a>, Error>,
)
    requires
        call_ensures(Sender::send, (sender, map_len, payload), sent),
        call_ensures(Sender::send_timeout, (sender, map_len, payload, timeout), sent_in_time),
        call_ensures(Sender::send_when_empty, (sender, map_len, payload), sent_when_empty),
    ensures
        ({
            let end = sender.buffer.beginning + payload@.len() + 8;
            let possible = 0 < payload@.len() && end <= map_len && end <= u32::MAX;
            &&& possible <==> sent is Ok
            &&& possible <==> sent_in_time is Ok
            &&& possible <==> sent_when_empty is Ok
            &&& possible ==> sent->Ok_0.payload@ == payload@
            &&& possible ==> sent_in_time->Ok_0.payload@ == payload@
            &&& possible ==> sent_when_empty->Ok_0.payload@ == payload@
        }),
{
}

/// A ring accepts every message of up to the size that it was created for, and none that is larger.
pub proof fn created_ring_accepts_the_size_asked_for(
    header_size: u32,
    size_in_bytes: u32,
    created: (SharedRingBuffer, Header, u64),
    sender: &Sender,
    map_len: usize,
    size: u64,
    result: Result<u32, Error>,
)
    requires
        header_size + size_in_bytes + 8 <= u32::MAX,
        call_ensures(SharedRingBuffer::create, (header_size, size_in_bytes), created),
        call_ensures(Sender::new, (created.0,), *sender),
        map_len == created.2,
        call_ensures(Sender::check_size, (sender, map_len, size), result),
    ensures
        1 <= size <= size_in_bytes <==> result is Ok,
        size > size_in_bytes ==> result == Err::<u32, Error>(Error::MessageTooLarge),
{
}

/// What a sender takes for the capacity of a ring is the capacity of the ring.
pub proof fn sender_knows_the_capacity(sender: Sender, header: Header, map: Seq<u8>)
    ensures
        sender.capacity(map.len() as int) == sender.buffer.ring(header, map).capacity(),
        map.len() <= u32::MAX ==> sender.buffer.beginning + sender.capacity(map.len() as int) + 8
            == map.len(),
        map.len() > u32::MAX ==> sender.buffer.beginning + sender.capacity(map.len() as int) + 8
            == u32::MAX,
{
}

/// A message that was accepted can be placed in every well-formed ring in that map, without storing
/// anything beyond it, and once the receiver has taken every message it is stored, at once or on the
/// next lap.
pub proof fn accepted_message_is_sent_in_the_end<'a>(
    sender: &Sender,
    payload: &'a [u8],
    map_len: usize,
    result: Result<Sending<'a>, Error>,
    header: Header,
    map: Seq<u8>,
)
    requires
        call_ensures(Sender::send, (sender, map_len, payload), result),
        result is Ok,
        map.len() == map_len,
        sender.buffer.ring(header, map).wf(),
    ensures
        ({
            let ring = sender.buffer.ring(header, map);
            let drained = ring.reached();
            let size = payload@.len() as int;
            &&& result->Ok_0.valid(map_len as int)
            &&& result->Ok_0.within_map(header, map)
            &&& ring.messages().len() == 0 ==> match drained.placement(size, false) {
                Placement::Write => true,
                Placement::Wrap => drained.apply(Step::Wrap).reached().placement(size, false) is Write,
                Placement::Wait => false,
            }
        }),
{
    let ring = sender.buffer.ring(header, map);
    sender_stays_within_map(ring, payload@.len() as int, false);
    if ring.messages().len() == 0 {
        drained_ring_accepts(ring, payload@.len() as int, false);
    }
}

/// A message of either plain way of sending is stored at once wherever there is contiguous room for it
/// and the length after it: up to the receiver where that is a lap behind, else up to the end of the
/// map, as far as positions can address it.  It is never stored elsewhere.
pub proof fn plain_senders_never_wait_while_there_is_room<'a>(
    sender: &Sender,
    map_len: usize,
    payload: &'a [u8],
    timeout: u128,
    result: Result<Sending<'a>, Error>,
    header: Header,
    map: &[u8],
    placement: Placement,
)
    requires
        call_ensures(Sender::send, (sender, map_len, payload), result) || call_ensures(
            Sender::send_timeout,
            (sender, map_len, payload, timeout),
            result,
        ),
        result is Ok,
        call_ensures(Sending::look, (&result->Ok_0, &header, map), placement),
    ensures
        ({
            let end = header.write + payload@.len() + 8;
            &&& header.write < header.read ==> (placement is Write <==> end <= header.read)
            &&& header.write >= header.read ==> (placement is Write <==> end <= map@.len() && end
                <= u32::MAX)
        }),
{
}

/// A message that is sent when the ring is empty waits for as long as `read` and `write` differ, and so
/// for as long as any message is pending.  Where it is stored it is the only message in the ring.
pub proof fn sent_when_empty_is_alone<'a>(
    sender: &Sender,
    map_len: usize,
    payload: &'a [u8],
    result: Result<Sending<'a>, Error>,
    header: Header,
    map: &[u8],
    placement: Placement,
)
    requires
        call_ensures(Sender::send_when_empty, (sender, map_len, payload), result),
        result is Ok,
        map@.len() == map_len,
        call_ensures(Sending::look, (&result->Ok_0, &header, map), placement),
    ensures
        result->Ok_0.wait_until_empty,
        result->Ok_0.placement(header, map@) == placement,
        header.read != header.write ==> placement is Wait,
        header.read == header.write ==> (placement is Write <==> header.write + payload@.len() + 8
            <= map@.len() && header.write + payload@.len() + 8 <= u32::MAX),
        ({
            let ring = sender.buffer.ring(header, map@);
            ring.wf() ==> {
                &&& ring.messages().len() > 0 ==> placement is Wait
                &&& placement is Write ==> ring.apply(Step::Put(payload@)).messages() == seq![
                    payload@,
                ]
            }
        }),
{
    let ring = sender.buffer.ring(header, map@);
    if ring.wf() && placement is Write {
        waits_until_empty(ring, payload@);
    }
}

/// A message that is sent with a timeout waits for room for exactly that long from the moment that it
/// first had to wait, however often it is told to wait again, and no wait is longer than what is left.
pub proof fn send_timeout_waits_for_the_timeout<'a>(
    sender: &Sender,
    map_len: usize,
    payload: &'a [u8],
    timeout: u128,
    result: Result<Sending<'a>, Error>,
    first: u128,
    again: u128,
    now: u128,
)
    requires
        call_ensures(Sender::send_timeout, (sender, map_len, payload, timeout), result),
        result is Ok,
        first + timeout <= u128::MAX,
    ensures
        result->Ok_0.deadline.timeout == Some(timeout),
        result->Ok_0.deadline.at is None,
        result->Ok_0.deadline.can_arm(first),
        ({
            let once = result->Ok_0.deadline.armed(first);
            let twice = once.armed(again);
            let patience = if now < first + timeout {
                Patience::Wait(Some((first + timeout - now) as u128))
            } else {
                Patience::Expired
            };
            &&& once.can_arm(again)
            &&& once.allows(now) == patience
            &&& twice == once
        }),
{
}

/// A message that is sent without a timeout waits for as long as it takes, whether or not it waits for
/// the ring to be empty.
pub proof fn send_never_gives_up<'a>(
    sender: &Sender,
    map_len: usize,
    payload: &'a [u8],
    result: Result<Sending<'a>, Error>,
    first: u128,
    now: u128,
)
    requires
        call_ensures(Sender::send, (sender, map_len, payload), result) || call_ensures(
            Sender::send_when_empty,
            (sender, map_len, payload),
            result,
        ),
        result is Ok,
    ensures
        result->Ok_0.deadline.timeout is None,
        result->Ok_0.deadline.at is None,
        result->Ok_0.deadline.can_arm(first),
        result->Ok_0.deadline.armed(first) == result->Ok_0.deadline,
        result->Ok_0.deadline.allows(now) == Patience::Wait(None),
{
}

/// A frame of `size` bytes at `write`, and a length after it, end no later than `end`.
fn fits(write: u64, size: u64, end: u64) -> (fits: bool)
    requires
        end <= u32::MAX,
    ensures
        fits == (write + size + 8 <= end),
{
    write <= end && size <= end - write && 8 <= end - write - size
}

} // verus!
