//! How a message lies in the ring: its length as four little-endian bytes, then its bytes.

use vstd::prelude::*;

verus! {

/// The number that four bytes denote, the least significant byte first.
pub open spec fn le_value(bytes: Seq<u8>) -> int {
    bytes[0] + 0x100 * bytes[1] + 0x1_0000 * bytes[2] + 0x100_0000 * bytes[3]
}

/// The four bytes that denote `value`, the least significant byte first.
pub open spec fn le_bytes(value: int) -> Seq<u8> {
    seq![
        (value % 0x100) as u8,
        (value / 0x100 % 0x100) as u8,
        (value / 0x1_0000 % 0x100) as u8,
        (value / 0x100_0000 % 0x100) as u8,
    ]
}

/// `memory` with `bytes` in place of what lay at `at` and after.
pub open spec fn overwrite(memory: Seq<u8>, at: int, bytes: Seq<u8>) -> Seq<u8> {
    memory.subrange(0, at) + bytes + memory.subrange(at + bytes.len(), memory.len() as int)
}

/// A message as it is stored: its length, then its bytes.
pub open spec fn frame(payload: Seq<u8>) -> Seq<u8> {
    le_bytes(payload.len() as int) + payload
}

/// A length survives being written as bytes and read back.
pub proof fn le_round_trip(value: int)
    requires
        0 <= value <= u32::MAX,
    ensures
        le_value(le_bytes(value)) == value,
        le_bytes(value).len() == 4,
{
}

/// `bincode::deserialize::<u32>`: four bytes or more give the number that the first four denote,
/// the least significant byte first; fewer give an error.
#[verifier::external_body]
fn deserialize_u32(bytes: &[u8]) -> (result: Result<u32, bincode::Error>)
    ensures
        result is Ok <==> bytes@.len() >= 4,
        result is Ok ==> result->Ok_0 == le_value(bytes@.subrange(0, 4)),
{
    bincode::deserialize::<u32>(bytes)
}

/// `bincode::serialize_into` with a `u32` and a slice to write to: a slice of four bytes or more
/// gets the number in its first four bytes, the least significant first, and keeps the rest; a
/// shorter one gives an error.
#[verifier::external_body]
fn serialize_u32_into(slice: &mut [u8], value: u32) -> (result: Result<(), bincode::Error>)
    ensures
        result is Ok <==> old(slice)@.len() >= 4,
        result is Ok ==> final(slice)@ == overwrite(old(slice)@, 0, le_bytes(value as int)),
{
    bincode::serialize_into(slice, &value)
}

/// Reads the length stored at `at`.
pub fn read_length(map: &[u8], at: u32) -> (length: u32)
    requires
        at + 4 <= map@.len(),
    ensures
        length == le_value(map@.subrange(at as int, at + 4)),
        length == map@[at as int] + 0x100 * map@[at + 1] + 0x1_0000 * map@[at + 2] + 0x100_0000
            * map@[at + 3],
{
    assert(map@.len() == map.len());
    let start: usize = at as usize;
    let bytes = &map[start..start + 4];
    assert(bytes@.subrange(0, 4) =~= bytes@);
    deserialize_u32(bytes).unwrap()
}

/// Stores a length at `at`.
pub fn write_length(map: &mut [u8], at: u32, length: u32)
    requires
        at + 4 <= old(map)@.len(),
    ensures
        final(map)@ == overwrite(old(map)@, at as int, le_bytes(length as int)),
        final(map)@.len() == old(map)@.len(),
        final(map)@[at as int] + 0x100 * final(map)@[at + 1] + 0x1_0000 * final(map)@[at + 2]
            + 0x100_0000 * final(map)@[at + 3] == length,
        forall|i: int|
            0 <= i < at || at + 4 <= i < old(map)@.len() ==> #[trigger] final(map)@[i]
                == old(map)@[i],
{
    let (_, tail) = map.split_at_mut(at as usize);
    serialize_u32_into(tail, length).unwrap();
}

/// Stores a message at `at`: its length, then its bytes.
pub fn write_frame(map: &mut [u8], at: u32, payload: &[u8])
    requires
        payload@.len() <= u32::MAX,
        at + 4 + payload@.len() <= old(map)@.len(),
    ensures
        final(map)@ == overwrite(old(map)@, at as int, frame(payload@)),
        final(map)@.len() == old(map)@.len(),
        final(map)@[at as int] + 0x100 * final(map)@[at + 1] + 0x1_0000 * final(map)@[at + 2]
            + 0x100_0000 * final(map)@[at + 3] == payload@.len(),
        forall|i: int|
            0 <= i < payload@.len() ==> final(map)@[at + 4 + i] == #[trigger] payload@[i],
        forall|i: int|
            0 <= i < at || at + 4 + payload@.len() <= i < old(map)@.len()
                ==> #[trigger] final(map)@[i] == old(map)@[i],
{
    let ghost before = map@;
    write_length(map, at, payload.len() as u32);
    assert(map@.len() == map.len());
    let start: usize = at as usize + 4;
    let mut copied: usize = 0;
    while copied < payload.len()
        invariant
            copied <= payload@.len(),
            start == at + 4,
            start + payload@.len() <= map@.len(),
            map@ == overwrite(
                before,
                at as int,
                le_bytes(payload@.len() as int) + payload@.subrange(0, copied as int),
            ),
            map@.len() == before.len(),
            map@.len() <= usize::MAX,
        decreases payload@.len() - copied,
    {
        map[start + copied] = payload[copied];
        copied = copied + 1;
        assert(map@ =~= overwrite(
            before,
            at as int,
            le_bytes(payload@.len() as int) + payload@.subrange(0, copied as int),
        ));
    }
    assert(payload@.subrange(0, payload@.len() as int) =~= payload@);
}

} // verus!
