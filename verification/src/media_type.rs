//! The `Content-Type` value for a served file, from its path's extension.

use vstd::prelude::*;

verus! {

/// The MIME type that the extension table assigns to a path,
/// `application/octet-stream` when the extension is unknown.
pub uninterp spec fn mime_for_path(p: Seq<char>) -> Seq<char>;

/// Relies on `mime_guess::from_path` and `MimeGuess::first_or_octet_stream`:
/// a lookup in a fixed extension table, determined by the path alone, that
/// falls back to `application/octet-stream` when nothing matches.
#[verifier::external_body]
pub(crate) fn guess_mime(path: &str) -> (r: String)
    ensures
        r@ == mime_for_path(path@),
{
    String::from(mime_guess::from_path(path).first_or_octet_stream().as_ref())
}

} // verus!
