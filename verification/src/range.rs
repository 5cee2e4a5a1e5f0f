//! Byte-range headers: parsing `bytes=<start>-<end>` and choosing the
//! interval of the file to serve.
//!
//! The accepted form is a single range, `bytes=` followed by the text up
//! to the first `-` as the start position and the text between the first
//! and second `-` (or the end) as the end position. A field that is
//! missing or fails to parse falls back to its default: `0` for the
//! start, `len - 1` for the end. In particular the suffix form
//! `bytes=-N` is deliberately read as `start = 0, end = N`, not as "the
//! last N bytes". A header without the `bytes=` prefix counts as no
//! range at all. After defaulting, a start beyond the end is clamped
//! down to the end; an end at or beyond the file length, or any range
//! on an empty file, is unsatisfiable and refused — out-of-range ends
//! are not clamped down to the last byte. A request without a range
//! header is served whole even when the file is empty: a 200 with an
//! empty body.

use vstd::prelude::*;
use vstd::string::*;
use crate::decimal::{parse_u64, parse_u64_spec};
use crate::ByteRange;

verus! {

/// How a request is to be answered: the whole file, or one byte range.
#[derive(Clone, Copy, PartialEq, Eq, Structural, Debug)]
pub enum RequestPlan {
    /// Serve the whole file with status 200.
    Full,
    /// Serve the given byte interval with status 206.
    Partial(ByteRange),
}

/// Why a range request cannot be answered.
#[derive(Clone, Copy, PartialEq, Eq, Structural, Debug)]
pub enum RangeError {
    /// The requested interval ends at or beyond the file's length.
    Unsatisfiable,
}

/// Whether `h` begins with the literal `bytes=`.
pub open spec fn spec_has_bytes_prefix(h: Seq<char>) -> bool {
    &&& h.len() >= 6
    &&& h[0] == 'b'
    &&& h[1] == 'y'
    &&& h[2] == 't'
    &&& h[3] == 'e'
    &&& h[4] == 's'
    &&& h[5] == '='
}

/// The position of the first `-` in `s` at or after `from`, if any.
pub open spec fn find_dash(s: Seq<char>, from: int) -> Option<int>
    decreases s.len() - from,
{
    if from < 0 || from >= s.len() {
        None
    } else if s[from] == '-' {
        Some(from)
    } else {
        find_dash(s, from + 1)
    }
}

/// The text before the first `-`, or all of `s` if there is none.
pub open spec fn start_field(s: Seq<char>) -> Seq<char> {
    match find_dash(s, 0) {
        Some(d) => s.subrange(0, d),
        None => s,
    }
}

/// The text between the first and second `-` (or the end of `s`),
/// if a first `-` exists at all.
pub open spec fn end_field(s: Seq<char>) -> Option<Seq<char>> {
    match find_dash(s, 0) {
        Some(d) => match find_dash(s, d + 1) {
            Some(d2) => Some(s.subrange(d + 1, d2)),
            None => Some(s.subrange(d + 1, s.len() as int)),
        },
        None => None,
    }
}

/// The requested start position: the parsed start field, or `0`.
pub open spec fn spec_start_of(rest: Seq<char>) -> u64 {
    match parse_u64_spec(start_field(rest)) {
        Some(v) => v,
        None => 0,
    }
}

/// The requested end position: the parsed end field, or `len - 1`.
pub open spec fn spec_end_of(rest: Seq<char>, len: u64) -> u64
    recommends
        len > 0,
{
    match end_field(rest) {
        Some(f) => match parse_u64_spec(f) {
            Some(v) => v,
            None => (len - 1) as u64,
        },
        None => (len - 1) as u64,
    }
}

/// The plan for a file of length `len` under an optional range header.
pub open spec fn spec_plan(len: u64, header: Option<Seq<char>>) -> Result<RequestPlan, RangeError> {
    match header {
        Option::None => Ok(RequestPlan::Full),
        Option::Some(h) => {
            if !spec_has_bytes_prefix(h) {
                Ok(RequestPlan::Full)
            } else if len == 0 {
                Err(RangeError::Unsatisfiable)
            } else {
                let rest = h.skip(6);
                let s0 = spec_start_of(rest);
                let e0 = spec_end_of(rest, len);
                if e0 >= len {
                    Err(RangeError::Unsatisfiable)
                } else {
                    let s1: u64 = if s0 > e0 {
                        e0
                    } else {
                        s0
                    };
                    Ok(RequestPlan::Partial(ByteRange { start: s1, end: e0 }))
                }
            }
        },
    }
}

/// The view of an optional header string.
pub open spec fn header_view(header: Option<&str>) -> Option<Seq<char>> {
    match header {
        Option::Some(h) => Some(h@),
        Option::None => None,
    }
}

/// A found dash lies within bounds and is the first one from `from`.
pub proof fn lemma_find_dash(s: Seq<char>, from: int)
    requires
        0 <= from,
    ensures
        find_dash(s, from) matches Some(d) ==> from <= d < s.len() && s[d] == '-',
        find_dash(s, from) matches Some(d) ==> forall|j: int| from <= j < d ==> s[j] != '-',
        find_dash(s, from) is None ==> forall|j: int| from <= j < s.len() ==> s[j] != '-',
    decreases s.len() - from,
{
    if from < s.len() && s[from] != '-' {
        lemma_find_dash(s, from + 1);
    }
}

fn find_dash_in(s: &str, from: usize) -> (r: Option<usize>)
    requires
        from <= s@.len(),
    ensures
        match r {
            Some(d) => find_dash(s@, from as int) == Some(d as int),
            None => find_dash(s@, from as int) is None,
        },
{
    let n = s.unicode_len();
    let mut i: usize = from;
    while i < n
        invariant
            from <= i <= n,
            n == s@.len(),
            find_dash(s@, from as int) == find_dash(s@, i as int),
        decreases n - i,
    {
        let c = s.get_char(i);
        if c == '-' {
            return Some(i);
        }
        proof {
            assert(find_dash(s@, i as int) == find_dash(s@, i + 1));
        }
        i = i + 1;
    }
    None
}

/// Decide how to answer a request against a file of length `len`,
/// given the request's optional range header.
pub fn plan_request(len: u64, header: Option<&str>) -> (r: Result<RequestPlan, RangeError>)
    ensures
        r == spec_plan(len, header_view(header)),
{
    let h = match header {
        Option::None => {
            return Ok(RequestPlan::Full);
        },
        Option::Some(h) => h,
    };
    let n = h.unicode_len();
    if n < 6 || h.get_char(0) != 'b' || h.get_char(1) != 'y' || h.get_char(2) != 't' || h.get_char(
        3,
    ) != 'e' || h.get_char(4) != 's' || h.get_char(5) != '=' {
        return Ok(RequestPlan::Full);
    }
    if len == 0 {
        return Err(RangeError::Unsatisfiable);
    }
    let rest = h.substring_char(6, n);
    proof {
        assert(rest@ =~= h@.skip(6));
    }
    let m = rest.unicode_len();
    let first_dash = find_dash_in(rest, 0);
    proof {
        lemma_find_dash(rest@, 0);
    }
    let s0: u64;
    let e0: u64;
    match first_dash {
        Option::None => {
            s0 = match parse_u64(rest) {
                Some(v) => v,
                None => 0,
            };
            e0 = len - 1;
        },
        Option::Some(d) => {
            let sf = rest.substring_char(0, d);
            proof {
                assert(sf@ =~= start_field(rest@));
            }
            s0 = match parse_u64(sf) {
                Some(v) => v,
                None => 0,
            };
            proof {
                lemma_find_dash(rest@, d + 1);
            }
            let second_dash = find_dash_in(rest, d + 1);
            let ef = match second_dash {
                Some(d2) => rest.substring_char(d + 1, d2),
                None => rest.substring_char(d + 1, m),
            };
            proof {
                assert(ef@ =~= end_field(rest@).unwrap());
            }
            e0 = match parse_u64(ef) {
                Some(v) => v,
                None => len - 1,
            };
        },
    }
    if e0 >= len {
        Err(RangeError::Unsatisfiable)
    } else {
        let s1: u64 = if s0 > e0 {
            e0
        } else {
            s0
        };
        Ok(RequestPlan::Partial(ByteRange { start: s1, end: e0 }))
    }
}

} // verus!
