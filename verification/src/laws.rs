//! Laws of the core, proved once and for all inputs.
//!
//! Each proof function here states a guarantee of the whole pipeline —
//! from the request's range header to the response's status, headers
//! and body — over the specification model alone.

use vstd::prelude::*;
use crate::ByteRange;
use crate::decimal::{
    all_digits, char_is_digit, dec_digits, lemma_dec_digits, lemma_parse_round_trip,
    parse_u64_spec, spec_digit_char,
};
use crate::range::{
    end_field, find_dash, spec_end_of, spec_has_bytes_prefix, spec_plan, spec_start_of,
    start_field, RangeError, RequestPlan,
};
use crate::response::{
    headers_have, spec_common_headers, spec_content_range_value, spec_not_found, spec_respond,
    spec_serve,
};

verus! {

/// The canonical single-range header asking for bytes `s` through `e`.
pub open spec fn spec_range_header(s: int, e: int) -> Seq<char> {
    "bytes="@ + dec_digits(s) + "-"@ + dec_digits(e)
}

proof fn lemma_find_dash_at(s: Seq<char>, from: int, d: int)
    requires
        0 <= from <= d < s.len(),
        s[d] == '-',
        forall|j: int| from <= j < d ==> s[j] != '-',
    ensures
        find_dash(s, from) == Some(d),
    decreases d - from,
{
    if from < d {
        lemma_find_dash_at(s, from + 1, d);
    }
}

proof fn lemma_find_dash_none(s: Seq<char>, from: int)
    requires
        0 <= from,
        forall|j: int| from <= j < s.len() ==> s[j] != '-',
    ensures
        find_dash(s, from) is None,
    decreases s.len() - from,
{
    if from < s.len() {
        lemma_find_dash_none(s, from + 1);
    }
}

/// No decimal digit is a dash.
proof fn lemma_digits_have_no_dash(s: Seq<char>)
    requires
        all_digits(s),
    ensures
        forall|j: int| 0 <= j < s.len() ==> s[j] != '-',
{
    assert forall|j: int| 0 <= j < s.len() implies s[j] != '-' by {
        assert(char_is_digit(s[j]));
    }
}

/// A header of the canonical form `bytes=<s>-<e>` yields exactly the
/// partial plan with start `min(s, e)` and end `e`, provided the end
/// lies within the file.
pub proof fn lemma_plan_of_range_header(len: u64, s: u64, e: u64)
    requires
        0 < len,
        e < len,
    ensures
        spec_plan(len, Some(spec_range_header(s as int, e as int))) == Ok::<RequestPlan, RangeError>(
            RequestPlan::Partial(
                ByteRange {
                    start: if s > e {
                        e
                    } else {
                        s
                    },
                    end: e,
                },
            ),
        ),
{
    reveal_strlit("bytes=");
    reveal_strlit("-");
    let ds = dec_digits(s as int);
    let de = dec_digits(e as int);
    lemma_dec_digits(s as int);
    lemma_dec_digits(e as int);
    let h = spec_range_header(s as int, e as int);
    assert(spec_has_bytes_prefix(h));
    let rest = h.skip(6);
    assert(rest =~= ds + "-"@ + de);
    let d = ds.len() as int;
    assert(rest[d] == '-');
    lemma_digits_have_no_dash(ds);
    lemma_digits_have_no_dash(de);
    assert forall|j: int| 0 <= j < d implies rest[j] != '-' by {
        assert(rest[j] == ds[j]);
    }
    lemma_find_dash_at(rest, 0, d);
    assert(start_field(rest) =~= ds);
    lemma_parse_round_trip(s);
    assert(spec_start_of(rest) == s);
    assert forall|j: int| d + 1 <= j < rest.len() implies rest[j] != '-' by {
        assert(rest[j] == de[j - (d + 1)]);
    }
    lemma_find_dash_none(rest, d + 1);
    assert(end_field(rest) == Some(rest.subrange(d + 1, rest.len() as int)));
    assert(rest.subrange(d + 1, rest.len() as int) =~= de);
    lemma_parse_round_trip(e);
    assert(spec_end_of(rest, len) == e);
}

/// None of the three headers of a whole-file response is `Content-Range`.
proof fn lemma_common_headers_lack_content_range(mime: Seq<char>, body_len: int)
    ensures
        !headers_have(spec_common_headers(mime, body_len), "Content-Range"@),
{
    reveal_strlit("Content-Type");
    reveal_strlit("Content-Length");
    reveal_strlit("Access-Control-Allow-Origin");
    reveal_strlit("Content-Range");
    let hs = spec_common_headers(mime, body_len);
    assert forall|i: int| 0 <= i < hs.len() implies hs[i].0 != "Content-Range"@ by {
        assert("Content-Type"@.len() == 12);
        assert("Content-Length"@.len() == 14);
        assert("Access-Control-Allow-Origin"@.len() == 27);
        assert("Content-Range"@.len() == 13);
    }
}

/// An existing, non-empty file requested without a range header is
/// served whole: status 200, the body is the file's contents, and no
/// `Content-Range` header is present.
pub proof fn law_whole_file(content: Seq<u8>, path: Seq<char>)
    requires
        0 < content.len() <= u64::MAX,
    ensures
        spec_respond(content, path, None) matches Ok(m) && m.status == 200 && m.body == content
            && m.body.len() == content.len() && !headers_have(m.headers, "Content-Range"@),
{
    lemma_common_headers_lack_content_range(
        crate::media_type::mime_for_path(path),
        content.len() as int,
    );
}

/// A request for `bytes=0-0` on an existing, non-empty file yields
/// status 206, a one-byte body holding the file's first byte, and a
/// `Content-Range` header reading `bytes 0-0/<len>`.
pub proof fn law_first_byte(content: Seq<u8>, path: Seq<char>)
    requires
        0 < content.len() <= u64::MAX,
    ensures
        spec_respond(content, path, Some("bytes=0-0"@)) matches Ok(m) && m.status == 206
            && m.body == seq![content[0]] && m.body.len() == 1 && m.headers.len() == 4
            && m.headers[3] == ("Content-Range"@, spec_content_range_value(
            0,
            0,
            content.len() as int,
        )),
{
    reveal_strlit("bytes=0-0");
    reveal_strlit("bytes=");
    reveal_strlit("-");
    assert(dec_digits(0) =~= seq![spec_digit_char(0)]);
    assert("bytes=0-0"@ =~= spec_range_header(0, 0));
    let len = content.len() as u64;
    lemma_plan_of_range_header(len, 0, 0);
    let m = spec_respond(content, path, Some("bytes=0-0"@)).unwrap();
    assert(m.body =~= seq![content[0]]);
}

/// An open-ended request `bytes=5-` on a file longer than five bytes
/// yields status 206 and serves from byte five to the end of the file:
/// the body has length `len - 5` and the range ends at `len - 1`.
pub proof fn law_open_ended(content: Seq<u8>, path: Seq<char>)
    requires
        5 < content.len() <= u64::MAX,
    ensures
        spec_respond(content, path, Some("bytes=5-"@)) matches Ok(m) && m.status == 206
            && m.body == content.skip(5) && m.body.len() == content.len() - 5 && m.headers[3]
            == ("Content-Range"@, spec_content_range_value(5, content.len() - 1, content.len() as int)),
{
    reveal_strlit("bytes=5-");
    let h = "bytes=5-"@;
    let len = content.len() as u64;
    assert(spec_has_bytes_prefix(h));
    let rest = h.skip(6);
    assert(rest.len() == 2);
    assert(rest[0] == '5');
    assert(rest[1] == '-');
    lemma_find_dash_at(rest, 0, 1);
    assert(start_field(rest) =~= seq!['5']);
    assert(dec_digits(5) =~= seq![spec_digit_char(5)]);
    assert(start_field(rest) =~= dec_digits(5));
    lemma_parse_round_trip(5);
    assert(spec_start_of(rest) == 5);
    lemma_find_dash_none(rest, 2);
    assert(end_field(rest) == Some(rest.subrange(2, 2)));
    assert(rest.subrange(2, 2).len() == 0);
    assert(parse_u64_spec(rest.subrange(2, 2)) is None);
    assert(spec_end_of(rest, len) == len - 1);
    assert(spec_plan(len, Some(h)) == Ok::<RequestPlan, RangeError>(
        RequestPlan::Partial(ByteRange { start: 5, end: (len - 1) as u64 }),
    ));
    let m = spec_respond(content, path, Some(h)).unwrap();
    assert(m.body =~= content.skip(5));
}

/// A request whose start lies beyond its end, such as `bytes=10-2`, is
/// clamped rather than refused: it is served as the single byte at the
/// end position, here `start = end = 2` with a one-byte body.
pub proof fn law_start_beyond_end(content: Seq<u8>, path: Seq<char>)
    requires
        2 < content.len() <= u64::MAX,
    ensures
        spec_respond(content, path, Some("bytes=10-2"@)) matches Ok(m) && m.status == 206
            && m.body == seq![content[2]] && m.body.len() == 1 && m.headers[3]
            == ("Content-Range"@, spec_content_range_value(2, 2, content.len() as int)),
{
    reveal_strlit("bytes=10-2");
    reveal_strlit("bytes=");
    reveal_strlit("-");
    assert(dec_digits(1) =~= seq![spec_digit_char(1)]);
    assert(dec_digits(10) =~= seq![spec_digit_char(1), spec_digit_char(0)]);
    assert(dec_digits(2) =~= seq![spec_digit_char(2)]);
    assert("bytes=10-2"@ =~= spec_range_header(10, 2));
    let len = content.len() as u64;
    lemma_plan_of_range_header(len, 10, 2);
    let m = spec_respond(content, path, Some("bytes=10-2"@)).unwrap();
    assert(m.body =~= seq![content[2]]);
}

/// A resource that is not on disk is answered with a bare 404 and an
/// empty body, whatever range header the request carried.
pub proof fn law_not_found(content: Seq<u8>, path: Seq<char>, header: Option<Seq<char>>)
    requires
        content.len() <= u64::MAX,
    ensures
        spec_serve(false, content, path, header) matches Ok(m) && m == spec_not_found()
            && m.status == 404 && m.body.len() == 0 && m.headers.len() == 0,
{
}

/// A malformed range header such as `bytes=abc-def` is not an error:
/// both fields fall back to their defaults, so the whole file is served,
/// yet the status is still 206 because a range header was present.
pub proof fn law_malformed_header(content: Seq<u8>, path: Seq<char>)
    requires
        0 < content.len() <= u64::MAX,
    ensures
        spec_respond(content, path, Some("bytes=abc-def"@)) matches Ok(m) && m.status == 206
            && m.body == content && m.headers[3] == ("Content-Range"@, spec_content_range_value(
            0,
            content.len() - 1,
            content.len() as int,
        )),
{
    reveal_strlit("bytes=abc-def");
    let h = "bytes=abc-def"@;
    let len = content.len() as u64;
    assert(spec_has_bytes_prefix(h));
    let rest = h.skip(6);
    assert(rest.len() == 7);
    assert(rest[0] == 'a' && rest[1] == 'b' && rest[2] == 'c');
    assert(rest[3] == '-');
    assert(rest[4] == 'd' && rest[5] == 'e' && rest[6] == 'f');
    lemma_find_dash_at(rest, 0, 3);
    assert(start_field(rest) =~= seq!['a', 'b', 'c']);
    assert(!char_is_digit(start_field(rest)[0]));
    assert(parse_u64_spec(start_field(rest)) is None);
    assert(spec_start_of(rest) == 0);
    lemma_find_dash_none(rest, 4);
    assert(end_field(rest) == Some(rest.subrange(4, 7)));
    assert(rest.subrange(4, 7) =~= seq!['d', 'e', 'f']);
    assert(!char_is_digit(rest.subrange(4, 7)[0]));
    assert(parse_u64_spec(rest.subrange(4, 7)) is None);
    assert(spec_end_of(rest, len) == len - 1);
    assert(spec_plan(len, Some(h)) == Ok::<RequestPlan, RangeError>(
        RequestPlan::Partial(ByteRange { start: 0, end: (len - 1) as u64 }),
    ));
    let m = spec_respond(content, path, Some(h)).unwrap();
    assert(m.body =~= content);
}

/// A successful response is well formed: its status is 200 or 206, a
/// 200 carries the whole file as its body, a 206 carries exactly the
/// served interval, and a `Content-Range` header is present precisely
/// when the status is 206.
pub proof fn law_response_well_formed(content: Seq<u8>, path: Seq<char>, header: Option<Seq<char>>)
    requires
        content.len() <= u64::MAX,
    ensures
        spec_respond(content, path, header) matches Ok(m) ==> {
            &&& m.status == 200 || m.status == 206
            &&& m.status == 200 ==> m.body == content
            &&& m.status == 206 ==> (spec_plan(content.len() as u64, header) matches Ok(
                RequestPlan::Partial(r),
            ) && m.body == content.subrange(r.start as int, r.end as int + 1) && m.body.len()
                == r.spec_byte_count())
            &&& headers_have(m.headers, "Content-Range"@) <==> m.status == 206
        },
{
    reveal_strlit("Content-Range");
    match spec_plan(content.len() as u64, header) {
        Ok(RequestPlan::Full) => {
            lemma_common_headers_lack_content_range(
                crate::media_type::mime_for_path(path),
                content.len() as int,
            );
        },
        Ok(RequestPlan::Partial(r)) => {
            let m = spec_respond(content, path, header).unwrap();
            assert(m.headers.len() == 4 && m.headers[3].0 == "Content-Range"@);
            assert(headers_have(m.headers, "Content-Range"@));
        },
        Err(_) => {},
    }
}

/// Whether `rs` is a chain of valid ranges that begins at byte zero,
/// ends at the last byte of a file of length `len`, and where each
/// range starts right after the one before it.
pub open spec fn sequential_cover(rs: Seq<ByteRange>, len: int) -> bool {
    &&& rs.len() > 0
    &&& rs[0].start == 0
    &&& rs.last().end == len - 1
    &&& forall|i: int| 0 <= i < rs.len() ==> (#[trigger] rs[i]).start <= rs[i].end && rs[i].end < len
    &&& forall|i: int| 0 <= i < rs.len() - 1 ==> (#[trigger] rs[i + 1]).start == rs[i].end + 1
}

/// The bodies returned for the requests `bytes=<start>-<end>` of each
/// range in `rs`, concatenated in order.
pub open spec fn bodies_concat(content: Seq<u8>, path: Seq<char>, rs: Seq<ByteRange>) -> Seq<u8>
    decreases rs.len(),
{
    if rs.len() == 0 {
        Seq::empty()
    } else {
        spec_respond(
            content,
            path,
            Some(spec_range_header(rs[0].start as int, rs[0].end as int)),
        ).unwrap().body + bodies_concat(content, path, rs.skip(1))
    }
}

proof fn lemma_bodies_chain(content: Seq<u8>, path: Seq<char>, rs: Seq<ByteRange>)
    requires
        0 < content.len() <= u64::MAX,
        rs.len() > 0,
        forall|i: int| 0 <= i < rs.len() ==> (#[trigger] rs[i]).start <= rs[i].end && rs[i].end
            < content.len(),
        forall|i: int| 0 <= i < rs.len() - 1 ==> (#[trigger] rs[i + 1]).start == rs[i].end + 1,
    ensures
        rs[0].start <= rs.last().end + 1,
        bodies_concat(content, path, rs) == content.subrange(
            rs[0].start as int,
            rs.last().end as int + 1,
        ),
    decreases rs.len(),
{
    let len = content.len() as u64;
    lemma_plan_of_range_header(len, rs[0].start, rs[0].end);
    let first = spec_respond(
        content,
        path,
        Some(spec_range_header(rs[0].start as int, rs[0].end as int)),
    ).unwrap().body;
    assert(first == content.subrange(rs[0].start as int, rs[0].end as int + 1));
    if rs.len() == 1 {
        assert(rs.skip(1).len() == 0);
        assert(bodies_concat(content, path, rs.skip(1)) =~= Seq::<u8>::empty());
        assert(bodies_concat(content, path, rs) =~= first);
    } else {
        let tail = rs.skip(1);
        assert forall|i: int| 0 <= i < tail.len() - 1 implies (#[trigger] tail[i + 1]).start
            == tail[i].end + 1 by {
            assert(tail[i] == rs[i + 1]);
            assert(tail[i + 1] == rs[i + 2]);
            assert(rs[(i + 1) + 1].start == rs[i + 1].end + 1);
        }
        lemma_bodies_chain(content, path, tail);
        assert(tail[0] == rs[1]);
        assert(rs[0int + 1].start == rs[0int].end + 1);
        assert(tail.last() == rs.last());
        assert(bodies_concat(content, path, rs) == first + bodies_concat(content, path, tail));
        assert(content.subrange(rs[0].start as int, rs[0].end as int + 1) + content.subrange(
            rs[1].start as int,
            rs.last().end as int + 1,
        ) =~= content.subrange(rs[0].start as int, rs.last().end as int + 1));
    }
}

/// Round trip: requesting sequential, non-overlapping ranges that
/// together cover the whole file, and concatenating the returned bodies
/// in order, reproduces the file's contents exactly.
pub proof fn law_round_trip(content: Seq<u8>, path: Seq<char>, rs: Seq<ByteRange>)
    requires
        0 < content.len() <= u64::MAX,
        sequential_cover(rs, content.len() as int),
    ensures
        bodies_concat(content, path, rs) == content,
{
    lemma_bodies_chain(content, path, rs);
    assert(content.subrange(0, content.len() as int) =~= content);
}

} // verus!

