//! What the memory of a ring means.
//!
//! A ring is the memory from `beginning` to the end of the map.  Messages are stored one after the
//! other, each as a frame.  Senders store at `write` and move it forward; the receiver takes from
//! `read` and moves it forward.  Where the next message does not fit before the end of the map, a
//! length of zero marks the end of the lap and `write` goes back to `beginning`; the receiver
//! follows when it meets the mark.

use crate::frame::{frame, le_bytes, le_value, overwrite};
use vstd::prelude::*;

verus! {

/// The bytes of a map that positions can address: positions have 32 bits.
pub open spec fn addressable(map_len: int) -> int {
    if map_len <= u32::MAX {
        map_len
    } else {
        u32::MAX as int
    }
}

/// The bytes of a map that positions can address.
pub fn addressable_len(map_len: usize) -> (len: u64)
    ensures
        len == addressable(map_len as int),
{
    if map_len as u64 <= u32::MAX as u64 {
        map_len as u64
    } else {
        u32::MAX as u64
    }
}

/// How far `to` lies after `from`.
pub open spec fn distance(from: int, to: int) -> nat {
    if from < to {
        (to - from) as nat
    } else {
        0
    }
}

/// The memory of a ring and its two positions.
#[verifier::ext_equal]
pub struct Ring {
    /// Where the first frame of a lap lies.
    pub beginning: int,
    /// Where the receiver reads next.
    pub read: int,
    /// Where a sender writes next.
    pub write: int,
    /// The whole map, from offset zero.
    pub map: Seq<u8>,
}

/// What a sender does with a message when it looks at the positions.
pub enum Placement {
    /// Store the message at `write`.
    Write,
    /// End the lap at `write` and go on at the beginning.
    Wrap,
    /// Wait for the receiver.
    Wait,
}

/// What the receiver finds at `read`.
pub enum Turn {
    /// A message, whose bytes lie from `start` to `end`.
    Message {
        /// The first byte of the message.
        start: int,
        /// The first byte after the message.
        end: int,
    },
    /// The end of a lap.
    Rewind,
    /// Nothing.
    Empty,
    /// A length of zero where no lap can have ended.
    Corrupt,
}

/// A step that one end of the channel makes.
pub enum Step {
    /// A sender stores a message.
    Put(Seq<u8>),
    /// A sender ends a lap.
    Wrap,
    /// The receiver takes the message at `read`.
    Take,
    /// The receiver follows to the next lap.
    Rewind,
}

impl Ring {
    /// The length stored at `at`.
    pub open spec fn length_at(self, at: int) -> int {
        le_value(self.map.subrange(at, at + 4))
    }

    /// Where the frame at `at` ends.
    pub open spec fn after(self, at: int) -> int {
        at + 4 + self.length_at(at)
    }

    /// The message stored at `at`.
    pub open spec fn payload_at(self, at: int) -> Seq<u8> {
        self.map.subrange(at + 4, self.after(at))
    }

    /// Frames of messages fill the memory from `from` to `to`.
    pub open spec fn framed(self, from: int, to: int) -> bool
        decreases distance(from, to),
    {
        if from >= to {
            from == to
        } else {
            &&& self.length_at(from) > 0
            &&& self.framed(self.after(from), to)
        }
    }

    /// The messages stored from `from` to `to`, in order.
    pub open spec fn frames(self, from: int, to: int) -> Seq<Seq<u8>>
        decreases distance(from, to),
    {
        if from >= to {
            Seq::empty()
        } else {
            seq![self.payload_at(from)] + self.frames(self.after(from), to)
        }
    }

    /// Where the lap that goes through `from` ends: the first length of zero.
    pub open spec fn lap_end(self, from: int) -> int
        decreases distance(from, self.map.len() as int),
    {
        if from + 4 > self.map.len() || self.length_at(from) == 0 {
            from
        } else {
            self.lap_end(self.after(from))
        }
    }

    /// The receiver is still on the lap before the senders' lap.
    pub open spec fn lapped(self) -> bool {
        self.write < self.read
    }

    /// The positions and the memory fit together.
    ///
    /// On one lap, messages fill the memory from `read` to `write`.  Where the receiver is a lap
    /// behind, messages lie from `read` to the end of its lap and from the beginning to `write`.
    /// There is always room for a length at `write`.
    pub open spec fn wf(self) -> bool {
        &&& 0 <= self.beginning
        &&& self.beginning <= self.read
        &&& self.beginning <= self.write
        &&& self.write + 4 <= addressable(self.map.len() as int)
        &&& if self.lapped() {
            let end = self.lap_end(self.read);
            &&& self.framed(self.read, end)
            &&& end + 4 <= addressable(self.map.len() as int)
            &&& self.length_at(end) == 0
            &&& self.framed(self.beginning, self.write)
        } else {
            self.framed(self.read, self.write)
        }
    }

    /// The messages that were sent and not yet received, the oldest first.
    pub open spec fn messages(self) -> Seq<Seq<u8>> {
        if self.lapped() {
            self.frames(self.read, self.lap_end(self.read)) + self.frames(
                self.beginning,
                self.write,
            )
        } else {
            self.frames(self.read, self.write)
        }
    }

    /// The size of the largest message that the ring can store.
    pub open spec fn capacity(self) -> int {
        addressable(self.map.len() as int) - self.beginning - 8
    }

    /// A message of `size` bytes and a length after it fit between `write` and what must stay.
    pub open spec fn room(self, size: int) -> bool {
        self.write + size + 8 <= if self.lapped() {
            self.read
        } else {
            addressable(self.map.len() as int)
        }
    }

    /// What a sender with a message of `size` bytes does.
    ///
    /// A sender that waits for the ring to be empty stores or wraps only where `read` and `write`
    /// are equal.
    pub open spec fn placement(self, size: int, wait_until_empty: bool) -> Placement {
        if wait_until_empty && self.read != self.write {
            Placement::Wait
        } else if self.room(size) {
            Placement::Write
        } else if !self.lapped() && self.read != self.beginning {
            Placement::Wrap
        } else {
            Placement::Wait
        }
    }

    /// What the receiver finds.
    pub open spec fn turn(self) -> Turn {
        if self.read == self.write {
            Turn::Empty
        } else if self.length_at(self.read) > 0 {
            Turn::Message { start: self.read + 4, end: self.after(self.read) }
        } else if self.lapped() {
            Turn::Rewind
        } else {
            Turn::Corrupt
        }
    }

    /// What the receiver reads at `read` lies within the map.
    pub open spec fn readable(self) -> bool {
        self.read != self.write ==> {
            &&& self.read + 4 <= addressable(self.map.len() as int)
            &&& self.after(self.read) <= addressable(self.map.len() as int)
        }
    }

    /// The ring after the receiver has followed to the next lap, if its lap ended.
    pub open spec fn reached(self) -> Ring {
        if self.turn() is Rewind {
            self.apply(Step::Rewind)
        } else {
            self
        }
    }

    /// The ends of the channel make this step in this state.
    pub open spec fn allows(self, step: Step) -> bool {
        match step {
            Step::Put(payload) => 0 < payload.len() <= u32::MAX && self.room(payload.len() as int),
            Step::Wrap => !self.lapped() && self.read != self.beginning,
            Step::Take => self.turn() is Message,
            Step::Rewind => self.turn() is Rewind,
        }
    }

    /// The ring after a step.
    pub open spec fn apply(self, step: Step) -> Ring {
        match step {
            Step::Put(payload) => Ring {
                map: overwrite(self.map, self.write, frame(payload)),
                write: self.write + 4 + payload.len(),
                ..self
            },
            Step::Wrap => Ring {
                map: overwrite(self.map, self.write, le_bytes(0)),
                write: self.beginning,
                ..self
            },
            Step::Take => Ring { read: self.after(self.read), ..self },
            Step::Rewind => Ring { read: self.beginning, ..self },
        }
    }

    /// The ring after some steps, in order.
    pub open spec fn run(self, steps: Seq<Step>) -> Ring
        decreases steps.len(),
    {
        if steps.len() == 0 {
            self
        } else {
            self.run(steps.drop_last()).apply(steps.last())
        }
    }

    /// The ends of the channel can make these steps, in order.
    pub open spec fn legal(self, steps: Seq<Step>) -> bool
        decreases steps.len(),
    {
        steps.len() == 0 || {
            &&& self.legal(steps.drop_last())
            &&& self.run(steps.drop_last()).allows(steps.last())
        }
    }

    /// The messages that the receiver takes in some steps, in order.
    pub open spec fn received(self, steps: Seq<Step>) -> Seq<Seq<u8>>
        decreases steps.len(),
    {
        if steps.len() == 0 {
            Seq::empty()
        } else {
            let before = self.run(steps.drop_last());
            let earlier = self.received(steps.drop_last());
            match steps.last() {
                Step::Take => earlier.push(before.payload_at(before.read)),
                _ => earlier,
            }
        }
    }
}

/// The messages that senders store in some steps, in order.
pub open spec fn sent(steps: Seq<Step>) -> Seq<Seq<u8>>
    decreases steps.len(),
{
    if steps.len() == 0 {
        Seq::empty()
    } else {
        let earlier = sent(steps.drop_last());
        match steps.last() {
            Step::Put(payload) => earlier.push(payload),
            _ => earlier,
        }
    }
}

/// Only senders make these steps.
pub open spec fn by_senders(steps: Seq<Step>) -> bool {
    forall|i: int| 0 <= i < steps.len() ==> (#[trigger] steps[i] is Put || steps[i] is Wrap)
}

/// Equal memory holds equal messages.
pub(crate) proof fn frames_agree(a: Ring, b: Ring, from: int, to: int)
    requires
        0 <= from,
        to <= a.map.len(),
        to <= b.map.len(),
        a.framed(from, to),
        forall|i: int| from <= i < to ==> a.map[i] == b.map[i],
    ensures
        b.framed(from, to),
        b.frames(from, to) == a.frames(from, to),
    decreases to - from,
{
    if from < to {
        frames_bounded(a, a.after(from), to);
        assert(a.map.subrange(from, from + 4) =~= b.map.subrange(from, from + 4));
        assert(a.payload_at(from) =~= b.payload_at(from));
        frames_agree(a, b, a.after(from), to);
    }
}

/// Frames end no earlier than they begin.
pub(crate) proof fn frames_bounded(ring: Ring, from: int, to: int)
    requires
        ring.framed(from, to),
    ensures
        from <= to,
{
}

/// One more frame is one more message.
pub(crate) proof fn frames_extend(ring: Ring, from: int, to: int)
    requires
        ring.framed(from, to),
        ring.length_at(to) > 0,
    ensures
        ring.framed(from, ring.after(to)),
        ring.frames(from, ring.after(to)) == ring.frames(from, to).push(ring.payload_at(to)),
    decreases to - from,
{
    if from < to {
        frames_bounded(ring, ring.after(from), to);
        frames_extend(ring, ring.after(from), to);
        assert(ring.frames(from, ring.after(to)) =~= ring.frames(from, to).push(
            ring.payload_at(to),
        ));
    } else {
        assert(ring.framed(ring.after(to), ring.after(to)));
        assert(ring.frames(ring.after(to), ring.after(to)) =~= Seq::empty());
        assert(ring.frames(from, ring.after(to)) =~= ring.frames(from, to).push(
            ring.payload_at(to),
        ));
    }
}

/// Frames up to a length of zero make a lap that ends there.
pub(crate) proof fn lap_ends(ring: Ring, from: int, to: int)
    requires
        ring.framed(from, to),
        to + 4 <= ring.map.len(),
        ring.length_at(to) == 0,
    ensures
        ring.lap_end(from) == to,
    decreases to - from,
{
    if from < to {
        frames_bounded(ring, ring.after(from), to);
        lap_ends(ring, ring.after(from), to);
    }
}

} // verus!
