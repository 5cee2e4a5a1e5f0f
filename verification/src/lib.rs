//! A small library for serving byte ranges of local files.
//!
//! Given a resource locator and an optional `Range` header, the library
//! resolves the locator to a path, computes the byte interval to serve,
//! and builds a response descriptor (status code, headers, body bytes).
//! All file input/output is left to the caller; the library works on the
//! file's contents as a value.

use vstd::prelude::*;

pub mod decimal;
pub mod laws;
pub mod media_type;
pub mod range;
pub mod resolve;
pub mod response;

verus! {

/// An inclusive interval of byte positions within a file.
#[derive(Clone, Copy, PartialEq, Eq, Structural, Debug)]
pub struct ByteRange {
    pub start: u64,
    pub end: u64,
}

impl ByteRange {
    /// A range is valid for a file of length `len` when it lies
    /// entirely within the file.
    pub open spec fn valid_for(self, len: u64) -> bool {
        self.start <= self.end < len
    }

    /// The number of bytes the range covers.
    pub open spec fn spec_byte_count(self) -> int {
        self.end - self.start + 1
    }
}

} // verus!
