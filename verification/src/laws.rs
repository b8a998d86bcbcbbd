//! What holds of every channel, whatever its ends do and in whatever order.

use crate::frame::{le_bytes, le_round_trip};
use crate::ring::{
    addressable, by_senders, frames_agree, frames_bounded, frames_extend, lap_ends, sent, Placement,
    Ring, Step, Turn,
};
use vstd::prelude::*;

verus! {

/// Storing a message keeps the ring well formed and makes the message the last one pending.
pub proof fn put_appends(ring: Ring, payload: Seq<u8>)
    requires
        ring.wf(),
        ring.allows(Step::Put(payload)),
    ensures
        ring.apply(Step::Put(payload)).wf(),
        ring.apply(Step::Put(payload)).messages() == ring.messages().push(payload),
{
    let after = ring.apply(Step::Put(payload));
    let at = ring.write;
    le_round_trip(payload.len() as int);
    assert(after.map.subrange(at, at + 4) =~= le_bytes(payload.len() as int));
    assert(after.payload_at(at) =~= payload);
    if ring.lapped() {
        let end = ring.lap_end(ring.read);
        frames_bounded(ring, ring.read, end);
        frames_bounded(ring, ring.beginning, at);
        frames_agree(ring, after, ring.read, end);
        assert(after.map.subrange(end, end + 4) =~= ring.map.subrange(end, end + 4));
        lap_ends(after, ring.read, end);
        frames_agree(ring, after, ring.beginning, at);
        frames_extend(after, ring.beginning, at);
        assert(after.messages() =~= ring.messages().push(payload));
    } else {
        frames_agree(ring, after, ring.read, at);
        frames_extend(after, ring.read, at);
    }
}

/// Ending a lap keeps the ring well formed and every message pending.
pub proof fn wrap_keeps(ring: Ring)
    requires
        ring.wf(),
        ring.allows(Step::Wrap),
    ensures
        ring.apply(Step::Wrap).wf(),
        ring.apply(Step::Wrap).messages() == ring.messages(),
{
    let after = ring.apply(Step::Wrap);
    let at = ring.write;
    le_round_trip(0);
    assert(after.map.subrange(at, at + 4) =~= le_bytes(0));
    frames_agree(ring, after, ring.read, at);
    lap_ends(after, ring.read, at);
    assert(after.messages() =~= ring.messages());
}

/// Taking a message keeps the ring well formed and removes the oldest message pending.
pub proof fn take_removes_oldest(ring: Ring)
    requires
        ring.wf(),
        ring.allows(Step::Take),
    ensures
        ring.apply(Step::Take).wf(),
        ring.messages().len() > 0,
        ring.messages()[0] == ring.payload_at(ring.read),
        ring.apply(Step::Take).messages() == ring.messages().drop_first(),
{
    let after = ring.apply(Step::Take);
    if ring.lapped() {
        let end = ring.lap_end(ring.read);
        frames_bounded(ring, ring.after(ring.read), end);
        frames_agree(ring, after, after.read, end);
        assert(after.map.subrange(end, end + 4) =~= ring.map.subrange(end, end + 4));
        lap_ends(after, after.read, end);
        frames_bounded(ring, ring.beginning, ring.write);
        frames_agree(ring, after, ring.beginning, ring.write);
        assert(ring.messages().drop_first() =~= after.messages());
    } else {
        frames_bounded(ring, ring.after(ring.read), ring.write);
        frames_agree(ring, after, after.read, ring.write);
        assert(ring.messages().drop_first() =~= after.messages());
    }
}

/// Following to the next lap keeps the ring well formed and every message pending.
pub proof fn rewind_keeps(ring: Ring)
    requires
        ring.wf(),
        ring.allows(Step::Rewind),
    ensures
        ring.apply(Step::Rewind).wf(),
        ring.apply(Step::Rewind).messages() == ring.messages(),
{
    let after = ring.apply(Step::Rewind);
    frames_agree(ring, after, ring.beginning, ring.write);
    assert(after.messages() =~= ring.messages());
}

/// The receiver finds the oldest message pending, at once or after following to the next lap, and
/// finds nothing only where nothing is pending.  It never finds the ring corrupt, and what it reads
/// lies within the map.
pub proof fn receiver_finds_oldest(ring: Ring)
    requires
        ring.wf(),
    ensures
        ({
            let reached = ring.reached();
            &&& ring.readable()
            &&& reached.readable()
            &&& reached.wf()
            &&& reached.messages() == ring.messages()
            &&& match reached.turn() {
                Turn::Empty => ring.messages().len() == 0,
                Turn::Message { start, end } => {
                    &&& ring.messages().len() > 0
                    &&& ring.messages()[0] == ring.map.subrange(start, end)
                },
                Turn::Rewind => false,
                Turn::Corrupt => false,
            }
        }),
{
    turn_is_sound(ring);
    if ring.turn() is Rewind {
        rewind_keeps(ring);
        turn_is_sound(ring.apply(Step::Rewind));
    }
}

/// What the receiver finds in a well-formed ring.
proof fn turn_is_sound(ring: Ring)
    requires
        ring.wf(),
    ensures
        ring.readable(),
        ring.turn() !is Corrupt,
        ring.turn() is Rewind ==> ring.lapped(),
        ring.turn() is Empty ==> ring.messages().len() == 0,
        ring.turn() is Message ==> ring.messages().len() > 0 && ring.messages()[0]
            == ring.payload_at(ring.read),
{
    if ring.turn() is Message {
        take_removes_oldest(ring);
    }
    if ring.lapped() {
        let end = ring.lap_end(ring.read);
        frames_bounded(ring, ring.read, end);
        if ring.read < end {
            frames_bounded(ring, ring.after(ring.read), end);
        }
    } else if ring.read < ring.write {
        frames_bounded(ring, ring.after(ring.read), ring.write);
    }
}

/// A message that is larger than the capacity never finds room.
pub proof fn oversized_never_fits(ring: Ring, size: int)
    requires
        ring.wf(),
        size > ring.capacity(),
    ensures
        !ring.room(size),
{
    receiver_within_map(ring);
}

/// The receiver's position lies within the map.
proof fn receiver_within_map(ring: Ring)
    requires
        ring.wf(),
    ensures
        ring.read + 4 <= addressable(ring.map.len() as int),
{
    if ring.lapped() {
        frames_bounded(ring, ring.read, ring.lap_end(ring.read));
    } else {
        frames_bounded(ring, ring.read, ring.write);
    }
}

/// A sender stores or wraps only as the ring allows, and never wraps at the beginning of a lap.
pub proof fn placement_is_allowed(ring: Ring, payload: Seq<u8>, wait_until_empty: bool)
    requires
        0 <= ring.beginning,
        0 < payload.len() <= ring.capacity(),
    ensures
        ({
            let placement = ring.placement(payload.len() as int, wait_until_empty);
            &&& placement is Write ==> ring.allows(Step::Put(payload))
            &&& placement is Wrap ==> ring.allows(Step::Wrap) && ring.write > ring.beginning
        }),
{
}

/// What a sender stores lies within the map.
pub proof fn sender_stays_within_map(ring: Ring, size: int, wait_until_empty: bool)
    requires
        ring.wf(),
    ensures
        match ring.placement(size, wait_until_empty) {
            Placement::Write => ring.write + 4 + size <= ring.map.len(),
            Placement::Wrap => ring.write + 4 <= ring.map.len(),
            Placement::Wait => true,
        },
{
    receiver_within_map(ring);
}

/// A sender never waits while there is room.  A message and the length after it need contiguous room
/// between `write` and the receiver, where that is a lap behind, and otherwise between `write` and the
/// end of what positions can address.  Where there is that room the message is stored, and where there
/// is not it is not; a sender that waits for the ring to be empty needs `read` and `write` to be equal
/// as well.
pub proof fn stores_exactly_where_there_is_room(ring: Ring, size: int, wait_until_empty: bool)
    ensures
        ({
            let end = ring.write + size + 8;
            let placement = ring.placement(size, wait_until_empty);
            let may_store = ring.read == ring.write || !wait_until_empty;
            &&& may_store && ring.write < ring.read && end <= ring.read ==> placement is Write
            &&& may_store && ring.write >= ring.read && end <= ring.map.len() && end <= u32::MAX
                ==> placement is Write
            &&& placement is Write ==> {
                &&& may_store
                &&& ring.write < ring.read ==> end <= ring.read
                &&& ring.write >= ring.read ==> end <= ring.map.len() && end <= u32::MAX
            }
        }),
{
}

/// A sender ends the lap exactly where its message does not fit before the end of the map, both ends
/// are on one lap, and the receiver has left the beginning, so that there may be room there.  A sender
/// that waits for the ring to be empty does so only where `read` and `write` are equal.
pub proof fn laps_end_exactly_where_room_may_lie_ahead(
    ring: Ring,
    size: int,
    wait_until_empty: bool,
)
    ensures
        ring.placement(size, wait_until_empty) is Wrap <==> {
            &&& ring.write + size + 8 > ring.map.len() || ring.write + size + 8 > u32::MAX
            &&& ring.read <= ring.write
            &&& ring.read != ring.beginning
            &&& ring.read == ring.write || !wait_until_empty
        },
{
}

/// The capacity is what lies between the beginning and the end of what positions can address, but for
/// the two lengths around a message.
pub proof fn capacity_is_all_but_two_lengths(ring: Ring)
    ensures
        ring.map.len() <= u32::MAX ==> ring.beginning + ring.capacity() + 8 == ring.map.len(),
        ring.map.len() > u32::MAX ==> ring.beginning + ring.capacity() + 8 == u32::MAX,
{
}

/// What the receiver finds is told by the positions and the length at `read`, whose least significant
/// byte comes first.
pub proof fn length_tells_what_is_found(ring: Ring)
    requires
        0 <= ring.read,
        ring.read + 4 <= ring.map.len(),
    ensures
        ({
            let at = ring.read;
            let length = ring.map[at] + 0x100 * ring.map[at + 1] + 0x1_0000 * ring.map[at + 2]
                + 0x100_0000 * ring.map[at + 3];
            match ring.turn() {
                Turn::Empty => at == ring.write,
                Turn::Message { start, end } => {
                    &&& at != ring.write
                    &&& length > 0
                    &&& start == at + 4
                    &&& end == at + 4 + length
                },
                Turn::Rewind => ring.write < at && length == 0,
                Turn::Corrupt => at < ring.write && length == 0,
            }
        }),
{
}

/// Following to the next lap moves `read` to the beginning and nothing else, and happens exactly where
/// the receiver, a lap behind, meets a length of zero.
pub proof fn following_moves_read_to_the_beginning(ring: Ring)
    requires
        0 <= ring.read,
        ring.read + 4 <= ring.map.len(),
    ensures
        ({
            let at = ring.read;
            let ended = ring.write < at && ring.map[at] == 0 && ring.map[at + 1] == 0 && ring.map[at
                + 2] == 0 && ring.map[at + 3] == 0;
            &&& ended ==> ring.reached() == (Ring { read: ring.beginning, ..ring })
            &&& !ended ==> ring.reached() == ring
        }),
{
}

/// What each step does to the positions and to the memory.
pub proof fn steps_change_what_they_should(ring: Ring, payload: Seq<u8>)
    requires
        0 <= ring.write,
        0 <= ring.read,
        ring.read + 4 <= ring.map.len(),
        payload.len() <= u32::MAX,
        ring.write + 4 + payload.len() <= ring.map.len(),
    ensures
        ({
            let at = ring.write;
            let size = payload.len() as int;
            let put = ring.apply(Step::Put(payload));
            let wrapped = ring.apply(Step::Wrap);
            let length = ring.map[ring.read] + 0x100 * ring.map[ring.read + 1] + 0x1_0000
                * ring.map[ring.read + 2] + 0x100_0000 * ring.map[ring.read + 3];
            &&& put == (Ring { write: at + 4 + size, map: put.map, ..ring })
            &&& put.map.len() == ring.map.len()
            &&& put.map[at] + 0x100 * put.map[at + 1] + 0x1_0000 * put.map[at + 2] + 0x100_0000
                * put.map[at + 3] == size
            &&& put.map.subrange(at + 4, at + 4 + size) == payload
            &&& forall|i: int|
                0 <= i < at || at + 4 + size <= i < ring.map.len() ==> #[trigger] put.map[i]
                    == ring.map[i]
            &&& wrapped == (Ring { write: ring.beginning, map: wrapped.map, ..ring })
            &&& wrapped.map.len() == ring.map.len()
            &&& forall|i: int| at <= i < at + 4 ==> #[trigger] wrapped.map[i] == 0
            &&& forall|i: int|
                0 <= i < at || at + 4 <= i < ring.map.len() ==> #[trigger] wrapped.map[i]
                    == ring.map[i]
            &&& ring.apply(Step::Take) == (Ring { read: ring.read + 4 + length, ..ring })
            &&& ring.apply(Step::Rewind) == (Ring { read: ring.beginning, ..ring })
        }),
{
    le_round_trip(payload.len() as int);
    assert(ring.apply(Step::Put(payload)).map.subrange(
        ring.write + 4,
        ring.write + 4 + payload.len(),
    ) =~= payload);
}

/// The ends make a step exactly where it is theirs to make: a sender stores a message where there is
/// room for it and ends a lap where the receiver is on it and has left the beginning; the receiver takes
/// a message where it finds one and follows where its lap ended.
pub proof fn steps_are_made_where_they_can_be(ring: Ring, payload: Seq<u8>)
    ensures
        ring.allows(Step::Put(payload)) <==> {
            let end = ring.write + payload.len() + 8;
            &&& 0 < payload.len() <= u32::MAX
            &&& ring.write < ring.read ==> end <= ring.read
            &&& ring.write >= ring.read ==> end <= ring.map.len() && end <= u32::MAX
        },
        ring.allows(Step::Wrap) <==> ring.read <= ring.write && ring.read != ring.beginning,
        ring.allows(Step::Take) <==> ring.turn() is Message,
        ring.allows(Step::Rewind) <==> ring.turn() is Rewind,
{
}

/// Steps are made one after the other.  Whatever was done so far, any step that is allowed can follow,
/// and adds to what was sent or received what it sends or receives.
pub proof fn steps_follow_each_other(ring: Ring, steps: Seq<Step>, step: Step)
    ensures
        ring.run(Seq::empty()) == ring,
        ring.legal(Seq::empty()),
        sent(Seq::empty()).len() == 0,
        ring.received(Seq::empty()).len() == 0,
        ring.run(steps.push(step)) == ring.run(steps).apply(step),
        ring.legal(steps.push(step)) <==> ring.legal(steps) && ring.run(steps).allows(step),
        by_senders(Seq::empty()),
        by_senders(steps) && (step is Put || step is Wrap) ==> by_senders(steps.push(step)),
        sent(steps.push(step)) == match step {
            Step::Put(payload) => sent(steps).push(payload),
            _ => sent(steps),
        },
        ring.received(steps.push(step)) == match step {
            Step::Take => ring.received(steps).push(ring.run(steps).messages()[0]),
            _ => ring.received(steps),
        } || !(ring.run(steps).wf() && ring.run(steps).allows(step)),
{
    let all = steps.push(step);
    assert(all.drop_last() =~= steps);
    assert(all.last() == step);
    if ring.run(steps).wf() && ring.run(steps).allows(step) && step is Take {
        take_removes_oldest(ring.run(steps));
    }
}

/// A sender that waits for the ring to be empty stores its message only where no other message is
/// pending, so that its message is the next one received.
pub proof fn waits_until_empty(ring: Ring, payload: Seq<u8>)
    requires
        ring.wf(),
        0 < payload.len() <= ring.capacity(),
        ring.placement(payload.len() as int, true) is Write,
    ensures
        ring.messages().len() == 0,
        ring.apply(Step::Put(payload)).messages() == seq![payload],
{
    put_appends(ring, payload);
    assert(ring.messages().push(payload) =~= seq![payload]);
}

/// A message that is no larger than the capacity can always be sent in the end: once the receiver
/// has taken every message, a sender of either kind stores it, at once or after it ended the lap
/// and the receiver followed.
pub proof fn drained_ring_accepts(ring: Ring, size: int, wait_until_empty: bool)
    requires
        ring.wf(),
        ring.messages().len() == 0,
        0 < size <= ring.capacity(),
    ensures
        ({
            let drained = ring.reached();
            let next_lap = drained.apply(Step::Wrap);
            match drained.placement(size, wait_until_empty) {
                Placement::Write => true,
                Placement::Wrap => {
                    &&& next_lap.turn() is Rewind
                    &&& next_lap.reached().turn() is Empty
                    &&& next_lap.reached().placement(size, wait_until_empty) is Write
                },
                Placement::Wait => false,
            }
        }),
{
    receiver_finds_oldest(ring);
    let drained = ring.reached();
    if drained.placement(size, wait_until_empty) is Wrap {
        wrap_keeps(drained);
        le_round_trip(0);
        let next_lap = drained.apply(Step::Wrap);
        assert(next_lap.map.subrange(drained.write, drained.write + 4) =~= le_bytes(0));
        assert(next_lap.map.len() == drained.map.len());
    }
}

/// A sender ends one lap at most before it has to wait for the receiver.
pub proof fn laps_end_once(ring: Ring, size: int, wait_until_empty: bool)
    requires
        ring.wf(),
        ring.placement(size, wait_until_empty) is Wrap,
    ensures
        ring.apply(Step::Wrap).placement(size, wait_until_empty) !is Wrap,
{
}

/// What is sent into an empty ring is what is received from it.
pub proof fn sent_message_is_received(ring: Ring, payload: Seq<u8>)
    requires
        ring.wf(),
        ring.messages().len() == 0,
        ring.allows(Step::Put(payload)),
    ensures
        ({
            let reached = ring.apply(Step::Put(payload)).reached();
            &&& reached.turn() matches Turn::Message { start, end }
            &&& reached.map.subrange(start, end) == payload
            &&& reached.apply(Step::Take).messages().len() == 0
        }),
{
    put_appends(ring, payload);
    receiver_finds_oldest(ring.apply(Step::Put(payload)));
    take_removes_oldest(ring.apply(Step::Put(payload)).reached());
}

/// A freshly set up ring is well formed, holds no message, and stores messages up to the size that
/// was asked for.
pub proof fn fresh_ring_is_empty(beginning: int, size_in_bytes: int, map: Seq<u8>)
    requires
        0 <= beginning,
        0 <= size_in_bytes,
        map.len() == beginning + size_in_bytes + 8,
        map.len() <= u32::MAX,
    ensures
        ({
            let ring = Ring { beginning, read: beginning, write: beginning, map };
            &&& ring.wf()
            &&& ring.messages().len() == 0
            &&& ring.capacity() == size_in_bytes
        }),
{
}

/// Messages come out as they went in.  In every order of steps that the ends can make, the messages
/// that were pending at first, followed by those sent, are those received, followed by those still
/// pending: none is lost, none comes twice, and none overtakes another.
pub proof fn first_in_first_out(ring: Ring, steps: Seq<Step>)
    requires
        ring.wf(),
        ring.legal(steps),
    ensures
        ring.run(steps).wf(),
        ring.messages() + sent(steps) == ring.received(steps) + ring.run(steps).messages(),
    decreases steps.len(),
{
    if steps.len() > 0 {
        let earlier = steps.drop_last();
        let before = ring.run(earlier);
        first_in_first_out(ring, earlier);
        match steps.last() {
            Step::Put(payload) => put_appends(before, payload),
            Step::Wrap => wrap_keeps(before),
            Step::Take => take_removes_oldest(before),
            Step::Rewind => rewind_keeps(before),
        }
        let pending = ring.run(steps).messages();
        match steps.last() {
            Step::Put(payload) => {
                assert(ring.messages() + sent(steps) =~= (ring.messages() + sent(earlier)).push(
                    payload,
                ));
                assert(ring.received(steps) + pending =~= (ring.received(earlier)
                    + before.messages()).push(payload));
            },
            Step::Take => {
                assert(ring.received(steps) + pending =~= ring.received(earlier)
                    + before.messages());
            },
            _ => {},
        }
    } else {
        assert(ring.messages() + sent(steps) =~= ring.received(steps) + ring.messages());
    }
}

/// What senders do behind the receiver's back does not disturb it.  However many messages are sent
/// after the receiver loaded `write`, the memory up to that position still holds the messages that
/// were pending then, and they are the oldest of those pending now.
pub proof fn earlier_write_stays_valid(ring: Ring, steps: Seq<Step>)
    requires
        ring.wf(),
        ring.legal(steps),
        by_senders(steps),
    ensures
        ring.run(steps).read == ring.read,
        (Ring { write: ring.write, ..ring.run(steps) }).wf(),
        (Ring { write: ring.write, ..ring.run(steps) }).messages() == ring.messages(),
        (Ring { write: ring.write, ..ring.run(steps) }).turn() == ring.turn(),
        ring.run(steps).messages() == ring.messages() + sent(steps),
{
    first_in_first_out(ring, steps);
    senders_receive_nothing(ring, steps);
    assert(ring.received(steps) + ring.run(steps).messages() =~= ring.run(steps).messages());
    senders_spare_receiver(ring, steps);
    if ring.read != ring.write {
        found_is_spared(ring, ring.run(steps));
    }
}

/// What the receiver found stays there.  Whatever senders do before the receiver moves `read`, it
/// would find the same message with the same bytes, or the same end of a lap; moving past it then
/// removes the oldest message or none, and all that was sent meanwhile is still to come.
pub proof fn found_stays_found(ring: Ring, steps: Seq<Step>)
    requires
        ring.wf(),
        ring.legal(steps),
        by_senders(steps),
        ring.turn() !is Empty,
    ensures
        ({
            let now = ring.run(steps);
            &&& now.turn() == ring.turn()
            &&& match ring.turn() {
                Turn::Message { start, end } => {
                    &&& now.map.subrange(start, end) == ring.map.subrange(start, end)
                    &&& now.apply(Step::Take) == (Ring { read: end, ..now })
                    &&& now.apply(Step::Take).messages() == ring.messages().drop_first() + sent(
                        steps,
                    )
                },
                _ => now.apply(Step::Rewind).messages() == ring.messages() + sent(steps),
            }
        }),
{
    let now = ring.run(steps);
    senders_spare_receiver(ring, steps);
    earlier_write_stays_valid(ring, steps);
    turn_is_sound(ring);
    found_is_spared(ring, now);
    if ring.turn() is Message {
        take_removes_oldest(now);
        assert((ring.messages() + sent(steps)).drop_first() =~= ring.messages().drop_first() + sent(
            steps,
        ));
    } else {
        rewind_keeps(now);
    }
}

/// What the receiver found on the next lap stays there.  Whatever senders do before the receiver
/// follows to the beginning, and between that and its move past the message, it would find the same
/// message with the same bytes; moving past it then removes the oldest message, and all that was sent
/// meanwhile is still to come.
pub proof fn found_on_next_lap_stays_found(ring: Ring, first: Seq<Step>, second: Seq<Step>)
    requires
        ring.wf(),
        ring.turn() is Rewind,
        ring.reached().turn() is Message,
        ring.legal(first),
        by_senders(first),
        ring.run(first).apply(Step::Rewind).legal(second),
        by_senders(second),
    ensures
        ring.run(first).allows(Step::Rewind),
        ({
            let now = ring.run(first).apply(Step::Rewind).run(second);
            &&& now.turn() == ring.reached().turn()
            &&& now.turn() matches Turn::Message { start, end }
            &&& now.map.subrange(start, end) == ring.map.subrange(start, end)
            &&& now.apply(Step::Take) == (Ring { read: end, ..now })
            &&& now.apply(Step::Take).messages() == ring.messages().drop_first() + sent(first)
                + sent(second)
        }),
{
    let reached = ring.reached();
    let followed = ring.run(first).apply(Step::Rewind);
    found_stays_found(ring, first);
    receiver_finds_oldest(ring);
    rewind_commutes(ring, first);
    first_in_first_out(reached, first);
    found_stays_found(reached, first);
    found_stays_found(followed, second);
    assert((ring.messages() + sent(first)).drop_first() =~= ring.messages().drop_first() + sent(
        first,
    ));
}

/// Where the receiver's lap ended, it makes no difference to senders whether it follows before or
/// after their steps.
proof fn rewind_commutes(ring: Ring, steps: Seq<Step>)
    requires
        ring.wf(),
        ring.turn() is Rewind,
        ring.legal(steps),
        by_senders(steps),
    ensures
        ring.reached().legal(steps),
        ring.reached().run(steps) == ring.run(steps).apply(Step::Rewind),
    decreases steps.len(),
{
    if steps.len() > 0 {
        let earlier = steps.drop_last();
        by_senders_earlier(steps);
        rewind_commutes(ring, earlier);
        senders_spare_receiver(ring, earlier);
        receiver_within_map(ring);
    }
}

/// The last of some steps of senders is one, and so are those before it.
proof fn by_senders_earlier(steps: Seq<Step>)
    requires
        by_senders(steps),
        steps.len() > 0,
    ensures
        by_senders(steps.drop_last()),
        steps.last() is Put || steps.last() is Wrap,
{
    let earlier = steps.drop_last();
    assert(steps.last() == steps[steps.len() - 1]);
    assert forall|i: int| 0 <= i < earlier.len() implies (#[trigger] earlier[i] is Put
        || earlier[i] is Wrap) by {
        assert(earlier[i] == steps[i]);
    }
}

/// Steps of senders receive nothing.
proof fn senders_receive_nothing(ring: Ring, steps: Seq<Step>)
    requires
        by_senders(steps),
    ensures
        ring.received(steps).len() == 0,
    decreases steps.len(),
{
    if steps.len() > 0 {
        by_senders_earlier(steps);
        senders_receive_nothing(ring, steps.drop_last());
    }
}

/// The part of the map that the receiver may read when it has loaded `write` from `ring`, up to
/// where its lap ends or the senders stand.
spec fn in_sight(ring: Ring, at: int) -> bool {
    ring.read <= at < if ring.lapped() {
        ring.lap_end(ring.read) + 4
    } else {
        ring.write
    }
}

/// `now` is a later state of the ring for a receiver that loaded `write` in the state `seen`.
spec fn spared(seen: Ring, now: Ring) -> bool {
    let still = Ring { write: seen.write, ..now };
    &&& now.wf()
    &&& now.read == seen.read
    &&& now.beginning == seen.beginning
    &&& now.map.len() == seen.map.len()
    &&& still.wf()
    &&& still.messages() == seen.messages()
    &&& seen.lapped() ==> seen.write <= now.write < seen.read
    &&& seen.lapped() ==> still.lap_end(seen.read) == seen.lap_end(seen.read)
    &&& !seen.lapped() ==> seen.write <= now.write || now.lapped()
    &&& forall|at: int| in_sight(seen, at) ==> #[trigger] now.map[at] == seen.map[at]
}

/// The length at `read` is spared, and the message after it.
proof fn found_is_spared(seen: Ring, now: Ring)
    requires
        seen.wf(),
        spared(seen, now),
        seen.read != seen.write,
    ensures
        now.length_at(seen.read) == seen.length_at(seen.read),
        now.payload_at(seen.read) == seen.payload_at(seen.read),
{
    let at = seen.read;
    let end = if seen.lapped() {
        seen.lap_end(at)
    } else {
        seen.write
    };
    turn_is_sound(seen);
    if at < end {
        frames_bounded(seen, seen.after(at), end);
    }
    assert(now.map.subrange(at, at + 4) =~= seen.map.subrange(at, at + 4));
    assert(now.payload_at(at) =~= seen.payload_at(at));
}

/// A step of a sender spares what the receiver may still read.
proof fn sender_spares_receiver(seen: Ring, before: Ring, step: Step)
    requires
        seen.wf(),
        spared(seen, before),
        before.allows(step),
        step is Put || step is Wrap,
    ensures
        spared(seen, before.apply(step)),
{
    let now = before.apply(step);
    match step {
        Step::Put(payload) => put_appends(before, payload),
        _ => wrap_keeps(before),
    }
    assert(now.map.len() == before.map.len());
    let still_before = Ring { write: seen.write, ..before };
    let still = Ring { write: seen.write, ..now };
    if seen.lapped() {
        let end = seen.lap_end(seen.read);
        assert(step is Put);
        frames_bounded(still_before, seen.read, end);
        frames_bounded(still_before, seen.beginning, seen.write);
        frames_agree(still_before, still, seen.read, end);
        assert(still.map.subrange(end, end + 4) =~= still_before.map.subrange(end, end + 4));
        lap_ends(still, seen.read, end);
        frames_agree(still_before, still, seen.beginning, seen.write);
    } else {
        frames_agree(still_before, still, seen.read, seen.write);
    }
}

/// Steps of senders spare what the receiver may still read.
proof fn senders_spare_receiver(ring: Ring, steps: Seq<Step>)
    requires
        ring.wf(),
        ring.legal(steps),
        by_senders(steps),
    ensures
        spared(ring, ring.run(steps)),
    decreases steps.len(),
{
    if steps.len() > 0 {
        let earlier = steps.drop_last();
        by_senders_earlier(steps);
        senders_spare_receiver(ring, earlier);
        sender_spares_receiver(ring, ring.run(earlier), steps.last());
    } else {
        assert((Ring { write: ring.write, ..ring }) == ring);
    }
}

} // verus!
