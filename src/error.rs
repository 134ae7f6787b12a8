use vstd::prelude::*;

verus! {

/// The failures that the gallery core reports.
#[derive(Debug, Clone, Copy, PartialEq, Eq)]
pub enum Error {
    /// A filesystem operation failed.
    Io,
    /// A query or transaction failed.
    UnknownDatabaseError,
    /// The schema could not be brought up to date.
    Migration,
    /// Input that the rules refuse: the message says which rule.
    IllegalStateError(&'static str),
    /// The upload payload could not be read.
    MultipartError,
    /// A storage path leaves its sandboxed root.
    InvalidPath,
    /// No entity or file with the requested identifier.
    NotFound,
    /// The entity is already first (moving up) or last (moving down).
    AtBoundary,
    /// A crop rectangle that does not lie inside the image, or leaves nothing.
    CropOutOfBounds,
    /// Image bytes that could not be decoded.
    ImageDecode,
    /// A picture that could not be encoded in the format its name asks for.
    ImageEncode,
    /// Operator credentials that were refused.
    Unauthorized,
}

} // verus!
