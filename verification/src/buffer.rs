//! Setting up a ring in a file and joining one that another process set up.

use crate::error::Error;
use crate::ring::Ring;
use vstd::prelude::*;

verus! {

/// Set in the flags of a ring that a 64-bit process set up; clear for a 32-bit process.
pub const FLAG_64_BIT: u32 = 1;

/// The flags of a ring that a process of this word size sets up.
pub open spec fn own_flags() -> u32 {
    if usize::BITS == 64 {
        FLAG_64_BIT
    } else {
        0
    }
}

/// The flags of a ring that this process sets up.
pub fn flags() -> (flags: u32)
    ensures
        flags == own_flags(),
        usize::BITS == 64 ==> flags == 1,
        usize::BITS != 64 ==> flags == 0,
{
    if usize::BITS == 64 {
        FLAG_64_BIT
    } else {
        0
    }
}

/// The shared variables of a ring, as loaded from its header or to be stored there.
///
/// The platform's lock lies in the header too; it is none of this crate's concern.
#[derive(Clone, Copy, Debug, PartialEq, Eq, Structural)]
pub struct Header {
    /// What kind of process set the ring up.
    pub flags: u32,
    /// Where the receiver reads next.
    pub read: u32,
    /// Where a sender writes next.
    pub write: u32,
}

impl Header {
    /// The header of a ring that was just set up.
    pub open spec fn fresh(beginning: u32) -> Header {
        Header { flags: own_flags(), read: beginning, write: beginning }
    }

    /// The header of a ring that was just set up, whose first frame lies at `beginning`.
    pub fn init(beginning: u32) -> (header: Header)
        ensures
            header == Header::fresh(beginning),
            header.read == beginning,
            header.write == beginning,
            usize::BITS == 64 ==> header.flags == 1,
            usize::BITS != 64 ==> header.flags == 0,
    {
        Header { flags: flags(), read: beginning, write: beginning }
    }
}

/// A handle on a ring, from which a [`Receiver`](crate::receiver::Receiver) or a
/// [`Sender`](crate::sender::Sender) is made.
///
/// The memory itself belongs to whoever maps it; operations are given the header and the map.
#[derive(Clone, Copy, Debug, PartialEq, Eq, Structural)]
pub struct SharedRingBuffer {
    /// The offset into the map of the first frame, which is the size of the header.
    pub beginning: u32,
}

impl SharedRingBuffer {
    /// The ring that a header and a map hold.
    pub open spec fn ring(self, header: Header, map: Seq<u8>) -> Ring {
        Ring {
            beginning: self.beginning as int,
            read: header.read as int,
            write: header.write as int,
            map,
        }
    }

    /// The length of the file for a ring that stores messages of up to `size_in_bytes` bytes.
    pub open spec fn file_len(header_size: u32, size_in_bytes: u32) -> int {
        header_size + size_in_bytes + 8
    }

    /// Lays out a ring that stores messages of up to `size_in_bytes` bytes: the handle on it, what
    /// its header holds at first, and the length of its file.
    pub fn create(header_size: u32, size_in_bytes: u32) -> (created: (Self, Header, u64))
        requires
            Self::file_len(header_size, size_in_bytes) <= u32::MAX,
        ensures
            created.0.beginning == header_size,
            created.1 == Header::fresh(header_size),
            created.2 == Self::file_len(header_size, size_in_bytes),
            created.1.read == header_size,
            created.1.write == header_size,
            usize::BITS == 64 ==> created.1.flags == 1,
            usize::BITS != 64 ==> created.1.flags == 0,
            created.2 == header_size + size_in_bytes + 8,
    {
        let file_len: u32 = header_size + size_in_bytes + 8;
        (SharedRingBuffer { beginning: header_size }, Header::init(header_size), file_len as u64)
    }

    /// Lays out a ring in a temporary file, and names the file.
    ///
    /// `path` is the path of the file, if it is a string.
    pub fn create_temp(path: Option<&str>, header_size: u32, size_in_bytes: u32) -> (result: Result<
        (String, Self, Header, u64),
        Error,
    >)
        requires
            Self::file_len(header_size, size_in_bytes) <= u32::MAX,
        ensures
            match path {
                Some(path) => {
                    &&& result is Ok
                    &&& result->Ok_0.0@ == path@
                    &&& result->Ok_0.1.beginning == header_size
                    &&& result->Ok_0.2 == Header::fresh(header_size)
                    &&& result->Ok_0.3 == Self::file_len(header_size, size_in_bytes)
                    &&& result->Ok_0.2.read == header_size
                    &&& result->Ok_0.2.write == header_size
                    &&& usize::BITS == 64 ==> result->Ok_0.2.flags == 1
                    &&& usize::BITS != 64 ==> result->Ok_0.2.flags == 0
                    &&& result->Ok_0.3 == header_size + size_in_bytes + 8
                },
                None => {
                    &&& result matches Err(Error::Runtime(text))
                    &&& text@ == "unable to represent path as string"@
                },
            },
    {
        match path {
            Some(path) => {
                let (buffer, header, file_len) = Self::create(header_size, size_in_bytes);
                Ok((path.to_owned(), buffer, header, file_len))
            },
            None => Err(Error::Runtime("unable to represent path as string".to_owned())),
        }
    }

    /// Joins a ring whose header holds `flags`.
    ///
    /// The ring must have been set up by a process with the word size of this one.
    pub fn open(header_size: u32, flags: u32) -> (result: Result<Self, Error>)
        ensures
            flags == own_flags() ==> result == Ok::<Self, Error>(
                SharedRingBuffer { beginning: header_size },
            ),
            flags != own_flags() ==> result == Err::<Self, Error>(Error::IncompatibleRingBuffer),
            match result {
                Ok(buffer) => {
                    &&& buffer.beginning == header_size
                    &&& usize::BITS == 64 ==> flags == 1
                    &&& usize::BITS != 64 ==> flags == 0
                },
                Err(Error::IncompatibleRingBuffer) => {
                    &&& usize::BITS == 64 ==> flags != 1
                    &&& usize::BITS != 64 ==> flags != 0
                },
                Err(_) => false,
            },
    {
        if flags != crate::buffer::flags() {
            return Err(Error::IncompatibleRingBuffer);
        }
        Ok(SharedRingBuffer { beginning: header_size })
    }
}

/// A header and a map hold the ring whose positions are those of the header and whose memory is the
/// map, with the first frame where the handle says.
pub proof fn ring_is_header_and_map(buffer: SharedRingBuffer, header: Header, map: Seq<u8>)
    ensures
        buffer.ring(header, map).beginning == buffer.beginning,
        buffer.ring(header, map).read == header.read,
        buffer.ring(header, map).write == header.write,
        buffer.ring(header, map).map == map,
{
}

/// What one process sets up, another process of the same word size joins, and gets the same handle;
/// a ring with any other flags is refused.
pub proof fn created_ring_is_joined(
    header_size: u32,
    size_in_bytes: u32,
    created: (SharedRingBuffer, Header, u64),
    flags: u32,
    joined: Result<SharedRingBuffer, Error>,
)
    requires
        header_size + size_in_bytes + 8 <= u32::MAX,
        call_ensures(SharedRingBuffer::create, (header_size, size_in_bytes), created),
        call_ensures(SharedRingBuffer::open, (header_size, flags), joined),
    ensures
        flags == created.1.flags ==> joined == Ok::<SharedRingBuffer, Error>(created.0),
        flags != created.1.flags ==> joined == Err::<SharedRingBuffer, Error>(
            Error::IncompatibleRingBuffer,
        ),
        created.1.read == created.0.beginning,
        created.1.write == created.0.beginning,
        created.2 - created.0.beginning == size_in_bytes + 8,
{
}

/// A ring that was just set up can be joined by a process of the same word size, holds no message,
/// and stores messages of up to the size that was asked for.
pub proof fn created_ring_can_be_opened(header_size: u32, size_in_bytes: u32, map: Seq<u8>)
    requires
        SharedRingBuffer::file_len(header_size, size_in_bytes) <= u32::MAX,
        map.len() == SharedRingBuffer::file_len(header_size, size_in_bytes),
    ensures
        Header::fresh(header_size).flags == own_flags(),
        ({
            let ring = (SharedRingBuffer { beginning: header_size }).ring(
                Header::fresh(header_size),
                map,
            );
            &&& ring.wf()
            &&& ring.messages().len() == 0
            &&& ring.capacity() == size_in_bytes
        }),
{
    crate::laws::fresh_ring_is_empty(header_size as int, size_in_bytes as int, map);
}

} // verus!
