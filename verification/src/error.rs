use vstd::prelude::*;

verus! {

/// The error of a file-system or memory-mapping call, carried unopened.
#[verifier::external_type_specification]
#[verifier::external_body]
pub struct ExIoError(std::io::Error);

/// The error of a `bincode` call, carried unopened.
#[verifier::external_type_specification]
#[verifier::external_body]
pub struct ExBincodeErrorKind(bincode::ErrorKind);

/// What can go wrong with a channel.
#[derive(Debug)]
pub enum Error {
    /// A second message was asked of a `ZeroCopyContext`, which delivers one only.
    AlreadyReceived,
    /// The serialized message is empty.  A length of zero marks the end of a lap around the ring,
    /// so an empty message cannot be stored.
    ZeroSizedMessage,
    /// The serialized message is larger than the capacity of the ring.
    MessageTooLarge,
    /// Every slot for a simultaneous sender is taken.
    TooManySenders,
    /// The ring was set up by a process with another word size.
    IncompatibleRingBuffer,
    /// A platform call failed, or the ring does not hold what it should.
    Runtime(String),
    /// A file-system or memory-mapping call failed.
    Io(std::io::Error),
    /// Serialization or deserialization failed.
    Bincode(bincode::Error),
}

} // verus!
