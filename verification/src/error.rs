//! Error taxonomy of the library.
//!
//! `ParseError` covers failures to read the PE headers themselves and is
//! fatal: bitness is a prerequisite for any resource access. `NoResources`
//! means the image has no locatable resource directory, which is distinct
//! from a present-but-empty directory. `IconNotFound` reports a missing
//! identifier after the exact-match and sign-flip attempts. `Assemble`
//! failures concern one icon group; `Encode` failures one encoded image.

use vstd::prelude::*;

verus! {

/// Failure to parse the PE headers.
#[derive(Clone, Copy, Debug, PartialEq, Eq, Structural)]
pub enum ParseError {
    /// The buffer ends before a required header field.
    UnexpectedEof,
    /// The bytes at `e_lfanew` are not the PE signature.
    InvalidSignature,
    /// The optional header magic is neither the PE32 nor the PE32+ value.
    UnknownMagic(u16),
}

/// Failure to reassemble one icon group into an ICO file.
#[derive(Clone, Copy, Debug, PartialEq, Eq, Structural)]
pub enum AssembleError {
    /// The group record is malformed: short, wrong reserved/type words,
    /// or its length does not match its entry count.
    BadGroup,
    /// A group member references a raw icon id that the image lacks.
    MissingIcon(u16),
    /// A raw icon's data length differs from the byte count the group
    /// record declares for it, so exact offsets cannot be produced.
    SizeMismatch(u16),
    /// The accumulated file offsets would not fit the ICO offset field.
    TooLarge,
}

/// Any failure of the extraction pipeline.
#[derive(Clone, Copy, Debug, PartialEq, Eq, Structural)]
pub enum ExtractError {
    /// The bytes are not a readable PE image.
    Parse(ParseError),
    /// The image has no locatable resource directory.
    NoResources,
    /// No icon group carries the requested identifier or ordinal.
    IconNotFound(i32),
    /// The selected icon group could not be reassembled.
    Assemble(AssembleError),
    /// The image codec rejected a pixel buffer.
    Encode,
    /// Neither a string table entry nor a raw data resource carries the
    /// requested identifier.
    TextNotFound(i32),
    /// A string resource holds invalid UTF-16.
    BadEncoding,
}

/// A reported error of the surrounding application: a failed file
/// operation, an argument that did not parse, or a missing resource.
#[derive(Debug)]
pub enum AppError {
    FileOperation { operation: String, path: String, detail: String },
    Parse { item: String, value: String },
    ResourceNotFound { resource_type: String, id: i32 },
}

/// Describe a failed file operation.
pub fn file_operation_error(operation: &str, path: &str, detail: &str) -> (r: AppError)
    ensures
        r matches AppError::FileOperation { operation: o, path: p, detail: d } && o@ == operation@
            && p@ == path@ && d@ == detail@,
{
    AppError::FileOperation {
        operation: operation.to_owned(),
        path: path.to_owned(),
        detail: detail.to_owned(),
    }
}

/// Describe a value that failed to parse.
pub fn parse_error(item: &str, value: &str) -> (r: AppError)
    ensures
        r matches AppError::Parse { item: i, value: v } && i@ == item@ && v@ == value@,
{
    AppError::Parse { item: item.to_owned(), value: value.to_owned() }
}

/// Describe a resource that was not found.
pub fn resource_not_found(resource_type: &str, id: i32) -> (r: AppError)
    ensures
        r matches AppError::ResourceNotFound { resource_type: t, id: i } && t@ == resource_type@
            && i == id,
{
    AppError::ResourceNotFound { resource_type: resource_type.to_owned(), id }
}

} // verus!
