//! Error kinds shared by the archive reader, the deserializer and the
//! texture decoder. All failures are returned as values, never panics.
use vstd::prelude::*;

verus! {

/// One failure of parsing, decryption or decoding.
///
/// `Crypto` marks block-length violations during decryption, `Format` a
/// structural violation (bad magic, size mismatch), `Property` a
/// property-stream consumption mismatch carrying the field path from the
/// offending field outward, `Unsupported` a known but unimplemented
/// compression method or pixel format, and `TypeMismatch` a request for an
/// export kind other than the parsed one.
#[derive(Debug)]
pub enum ParserError {
    Crypto,
    Format,
    Property { path: Vec<Vec<u8>> },
    Unsupported,
    TypeMismatch,
}

impl ParserError {
    /// The field path carried by a `Property` error, most specific field
    /// first; empty for every other kind.
    pub fn get_properties(self) -> (r: Vec<Vec<u8>>)
        ensures
            self is Property ==> r@ == self->path@,
            !(self is Property) ==> r@.len() == 0,
    {
        match self {
            ParserError::Property { path } => path,
            _ => Vec::new(),
        }
    }
}

} // verus!
