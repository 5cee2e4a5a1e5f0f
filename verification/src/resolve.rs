//! The locator resolver: from a resource locator to a filesystem path.
//!
//! A locator is expected to carry the scheme prefix `media://localhost/`;
//! the prefix is stripped when present and the locator is used as it
//! stands otherwise, to tolerate minor client variations. The remainder
//! is percent-decoded under strict UTF-8; a remainder that does not
//! decode to valid text is a fatal error for the request. Whether the
//! resulting path exists on disk is for the caller to check.

use vstd::prelude::*;
use vstd::string::*;

verus! {

/// Why a locator cannot be resolved.
#[derive(Clone, Copy, PartialEq, Eq, Structural, Debug)]
pub enum DecodeError {
    /// The percent-decoded bytes are not valid UTF-8 text.
    InvalidUtf8,
}

/// What strict percent-decoding under UTF-8 yields on `s`, when the
/// decoded bytes are valid text.
pub uninterp spec fn percent_decoded(s: Seq<char>) -> Option<Seq<char>>;

/// Whether `s` contains no `%`, so that decoding cannot change it.
pub open spec fn no_percent(s: Seq<char>) -> bool {
    forall|i: int| 0 <= i < s.len() ==> #[trigger] s[i] != '%'
}

/// Relies on `urlencoding::decode`: percent-decoding under strict UTF-8,
/// determined by the input alone; an input without `%` comes back
/// unchanged, and only invalid UTF-8 in the decoded bytes fails.
#[verifier::external_body]
fn percent_decode(s: &str) -> (r: Option<String>)
    ensures
        r is Some <==> percent_decoded(s@) is Some,
        r matches Some(t) ==> percent_decoded(s@) == Some(t@),
        r is None ==> !no_percent(s@),
        r matches Some(t) ==> (no_percent(s@) ==> t@ == s@),
{
    match urlencoding::decode(s) {
        Ok(decoded) => Some(decoded.into_owned()),
        Err(_) => None,
    }
}

/// `l` without its scheme prefix: the text after `media://localhost/`
/// when `l` starts with it, all of `l` otherwise.
pub open spec fn spec_stripped(l: Seq<char>) -> Seq<char> {
    if l.len() >= 18 && l.subrange(0, 18) == "media://localhost/"@ {
        l.skip(18)
    } else {
        l
    }
}

/// The path a locator stands for: its stripped remainder, decoded;
/// `None` when decoding fails.
pub open spec fn spec_resolve(l: Seq<char>) -> Option<Seq<char>> {
    percent_decoded(spec_stripped(l))
}

fn strip_media_prefix<'a>(l: &'a str) -> (r: &'a str)
    ensures
        r@ == spec_stripped(l@),
{
    let p = "media://localhost/";
    proof {
        reveal_strlit("media://localhost/");
    }
    let n = l.unicode_len();
    if n < 18 {
        return l;
    }
    let mut i: usize = 0;
    while i < 18
        invariant
            0 <= i <= 18,
            n == l@.len(),
            n >= 18,
            p@ == "media://localhost/"@,
            p@.len() == 18,
            forall|j: int| 0 <= j < i ==> l@[j] == p@[j],
        decreases 18 - i,
    {
        if l.get_char(i) != p.get_char(i) {
            proof {
                assert(l@.subrange(0, 18)[i as int] != "media://localhost/"@[i as int]);
            }
            return l;
        }
        i = i + 1;
    }
    proof {
        assert(l@.subrange(0, 18) =~= "media://localhost/"@);
    }
    let r = l.substring_char(18, n);
    proof {
        assert(r@ =~= l@.skip(18));
    }
    r
}

/// Resolve a locator to the path it names: strip the scheme prefix if
/// present and percent-decode the remainder.
pub fn resolve_locator(locator: &str) -> (r: Result<String, DecodeError>)
    ensures
        r matches Ok(p) ==> spec_resolve(locator@) == Some(p@),
        r is Err <==> spec_resolve(locator@) is None,
        no_percent(spec_stripped(locator@)) ==> (r matches Ok(p) && p@ == spec_stripped(
            locator@,
        )),
{
    let rest = strip_media_prefix(locator);
    match percent_decode(rest) {
        Some(path) => Ok(path),
        None => Err(DecodeError::InvalidUtf8),
    }
}

} // verus!
