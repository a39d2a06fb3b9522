//! Error taxonomy: format errors (a file's bytes match no supported layout),
//! schema errors (no schema for an object, or a shape mismatch at a typed
//! access), and reference errors (a pointer that cannot be followed).

use vstd::prelude::*;

verus! {

/// The failures the crate reports.  Format errors are fatal to parsing one
/// file; schema and reference errors are recoverable per object or pointer.
#[derive(Debug, Clone, Copy, PartialEq, Eq, Structural)]
pub enum Error {
    /// The declared format version matches no supported adapter.
    NoMatchingFormat,
    /// The bytes end before the layout says they may.
    UnexpectedEof,
    /// A numeric field violates a structural invariant (a negative count,
    /// an impossible offset).
    InvalidValue,
    /// A name or string field does not hold valid UTF-8.
    InvalidUtf8,
    /// The schema sequence is not a well-formed level-tagged tree.
    MalformedSchema,
    /// No schema is available for the requested type id.
    SchemaNotFound,
    /// A typed access found a value of another shape.
    WrongType,
    /// A slash-delimited path names no node of the value tree.
    PathNotFound,
    /// A pointer's path id is not present in the target file.
    ObjectNotFound,
    /// A pointer's file id is outside the externals list.
    FileIdOutOfRange,
    /// The externals entry names a file the registry does not hold.
    ExternalSerializedFileNotFound,
    /// The registry does not hold the serialized file a pointer was read from.
    SerializedFileNotFound,
}

} // verus!
