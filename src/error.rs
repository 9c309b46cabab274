use vstd::prelude::*;

verus! {

/// Why a container or one of its entries was rejected.
#[derive(Debug, Clone, Copy, PartialEq, Eq, Structural)]
pub enum Error {
    /// A header field is negative, or the sizes it declares overflow.
    Invalid,
    /// The buffer is shorter than the header, or than the sizes it declares.
    InvalidLength,
    /// The magic tag is neither of the two recognized ones.
    InvalidHeader,
    /// A directory record points outside of the payload region.
    InvalidEntry,
    /// An index or a range reaches past the entries of a view.
    OutOfBounds,
}

impl Error {
    /// A short human-readable description of the error.
    pub fn message(&self) -> (r: &'static str)
        ensures
            *self == Error::Invalid ==> r@ == "Invalid WAD file"@,
            *self == Error::InvalidLength ==> r@ == "Invalid WAD file length"@,
            *self == Error::InvalidHeader ==> r@ == "Invalid WAD file header"@,
            *self == Error::InvalidEntry ==> r@ == "Invalid WAD file entry"@,
            *self == Error::OutOfBounds ==> r@ == "Index out of bounds"@,
    {
        match self {
            Error::Invalid => "Invalid WAD file",
            Error::InvalidLength => "Invalid WAD file length",
            Error::InvalidHeader => "Invalid WAD file header",
            Error::InvalidEntry => "Invalid WAD file entry",
            Error::OutOfBounds => "Index out of bounds",
        }
    }
}

/// std's I/O error, carried unopened inside [`LoadError`].
#[verifier::external_type_specification]
#[verifier::external_body]
pub struct ExIoError(std::io::Error);

/// Why a container could not be loaded from a file.
#[derive(Debug)]
pub enum LoadError {
    /// The bytes were read but do not form a valid container.
    Error(Error),
    /// The file could not be read.
    IoError(std::io::Error),
}

} // verus!
