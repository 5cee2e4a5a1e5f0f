//! Building the response descriptor for a request.
//!
//! A response carries a status code, a list of headers, and the body
//! bytes. A served file always gets `Content-Type`, `Content-Length`
//! and a permissive cross-origin allow header; a partial response
//! additionally gets `Content-Range`, and only a partial response does.
//! A missing resource gets a bare 404 with an empty body.

use vstd::prelude::*;
use vstd::string::*;
use crate::decimal::{dec_digits, push_decimal, u64_to_string};
use crate::media_type::{guess_mime, mime_for_path};
use crate::range::{header_view, plan_request, spec_plan, RangeError, RequestPlan};

verus! {

/// The mathematical content of a response: status, headers as pairs of
/// character sequences, and the body bytes.
pub ghost struct ResponseModel {
    pub status: int,
    pub headers: Seq<(Seq<char>, Seq<char>)>,
    pub body: Seq<u8>,
}

/// A response to hand back to the host: status code, headers in order,
/// and the body bytes.
pub struct ResponseDescriptor {
    pub status: u16,
    pub headers: Vec<(String, String)>,
    pub body: Vec<u8>,
}

impl View for ResponseDescriptor {
    type V = ResponseModel;

    open spec fn view(&self) -> ResponseModel {
        ResponseModel {
            status: self.status as int,
            headers: Seq::new(self.headers@.len(), |i: int| (self.headers@[i].0@, self.headers@[i].1@)),
            body: self.body@,
        }
    }
}

/// The value of the `Content-Range` header: `bytes <start>-<end>/<total>`.
pub open spec fn spec_content_range_value(start: int, end: int, total: int) -> Seq<char> {
    "bytes "@ + dec_digits(start) + "-"@ + dec_digits(end) + "/"@ + dec_digits(total)
}

/// The headers every served file gets, in order.
pub open spec fn spec_common_headers(mime: Seq<char>, body_len: int) -> Seq<
    (Seq<char>, Seq<char>),
> {
    seq![
        ("Content-Type"@, mime),
        ("Content-Length"@, dec_digits(body_len)),
        ("Access-Control-Allow-Origin"@, "*"@),
    ]
}

/// The response for an existing file under a given plan.
pub open spec fn spec_response(content: Seq<u8>, mime: Seq<char>, plan: RequestPlan) -> ResponseModel {
    match plan {
        RequestPlan::Full => ResponseModel {
            status: 200,
            headers: spec_common_headers(mime, content.len() as int),
            body: content,
        },
        RequestPlan::Partial(r) => ResponseModel {
            status: 206,
            headers: spec_common_headers(mime, r.spec_byte_count()).push(
                ("Content-Range"@, spec_content_range_value(r.start as int, r.end as int, content.len() as int)),
            ),
            body: content.subrange(r.start as int, r.end as int + 1),
        },
    }
}

/// Whether a header of the given name occurs among `headers`.
pub open spec fn headers_have(headers: Seq<(Seq<char>, Seq<char>)>, name: Seq<char>) -> bool {
    exists|i: int| 0 <= i < headers.len() && (#[trigger] headers[i]).0 == name
}

/// The response for a resource that does not exist.
pub open spec fn spec_not_found() -> ResponseModel {
    ResponseModel { status: 404, headers: Seq::empty(), body: Seq::empty() }
}

/// The response for an existing file with contents `content` at `path`,
/// under an optional range header.
pub open spec fn spec_respond(
    content: Seq<u8>,
    path: Seq<char>,
    header: Option<Seq<char>>,
) -> Result<ResponseModel, RangeError>
    recommends
        content.len() <= u64::MAX,
{
    match spec_plan(content.len() as u64, header) {
        Ok(plan) => Ok(spec_response(content, mime_for_path(path), plan)),
        Err(e) => Err(e),
    }
}

/// The response of the whole core: a 404 when the resource is absent,
/// otherwise the range-respecting response for its contents.
pub open spec fn spec_serve(
    exists: bool,
    content: Seq<u8>,
    path: Seq<char>,
    header: Option<Seq<char>>,
) -> Result<ResponseModel, RangeError>
    recommends
        content.len() <= u64::MAX,
{
    if exists {
        spec_respond(content, path, header)
    } else {
        Ok(spec_not_found())
    }
}

/// The `Content-Range` header value for a served interval.
pub fn content_range_value(start: u64, end: u64, total: u64) -> (r: String)
    ensures
        r@ == spec_content_range_value(start as int, end as int, total as int),
{
    let mut out = String::from_str("bytes ");
    push_decimal(&mut out, start);
    out.append("-");
    push_decimal(&mut out, end);
    out.append("/");
    push_decimal(&mut out, total);
    proof {
        assert(out@ =~= spec_content_range_value(start as int, end as int, total as int));
    }
    out
}

fn copy_range(content: &Vec<u8>, start: usize, end_excl: usize) -> (r: Vec<u8>)
    requires
        start <= end_excl <= content@.len(),
    ensures
        r@ == content@.subrange(start as int, end_excl as int),
{
    let mut out: Vec<u8> = Vec::new();
    let mut i: usize = start;
    while i < end_excl
        invariant
            start <= i <= end_excl <= content@.len(),
            out@ == content@.subrange(start as int, i as int),
        decreases end_excl - i,
    {
        let b = content[i];
        out.push(b);
        proof {
            assert(content@.subrange(start as int, i + 1) =~= content@.subrange(
                start as int,
                i as int,
            ).push(content@[i as int]));
        }
        i = i + 1;
    }
    out
}

fn common_headers(mime: &str, body_len: u64) -> (r: Vec<(String, String)>)
    ensures
        Seq::new(r@.len(), |i: int| (r@[i].0@, r@[i].1@)) == spec_common_headers(
            mime@,
            body_len as int,
        ),
{
    let mut headers: Vec<(String, String)> = Vec::new();
    headers.push((String::from_str("Content-Type"), String::from_str(mime)));
    headers.push((String::from_str("Content-Length"), u64_to_string(body_len)));
    headers.push((String::from_str("Access-Control-Allow-Origin"), String::from_str("*")));
    proof {
        assert(Seq::new(headers@.len(), |i: int| (headers@[i].0@, headers@[i].1@))
            =~= spec_common_headers(mime@, body_len as int));
    }
    headers
}

/// The bare response for a resource that is not on disk: status 404,
/// no headers, empty body.
pub fn not_found() -> (r: ResponseDescriptor)
    ensures
        r@ == spec_not_found(),
{
    let r = ResponseDescriptor { status: 404, headers: Vec::new(), body: Vec::new() };
    proof {
        assert(r@.headers =~= spec_not_found().headers);
        assert(r@.body =~= spec_not_found().body);
    }
    r
}

/// Build the response for an existing file under an already-chosen plan.
pub fn build_response(content: &Vec<u8>, mime: &str, plan: &RequestPlan) -> (r: ResponseDescriptor)
    requires
        plan matches RequestPlan::Partial(br) ==> br.valid_for(content@.len() as u64),
    ensures
        r@ == spec_response(content@, mime@, *plan),
{
    let len = content.len();
    match plan {
        RequestPlan::Full => {
            let body = copy_range(content, 0, len);
            proof {
                assert(content@.subrange(0, content@.len() as int) =~= content@);
            }
            let body_len = body.len();
            let headers = common_headers(mime, body_len as u64);
            let r = ResponseDescriptor { status: 200, headers, body };
            proof {
                assert(r@.headers =~= spec_response(content@, mime@, *plan).headers);
            }
            r
        },
        RequestPlan::Partial(br) => {
            let start = br.start as usize;
            let end_excl = (br.end as usize) + 1;
            let body = copy_range(content, start, end_excl);
            let body_len = body.len();
            let mut headers = common_headers(mime, body_len as u64);
            let total = len as u64;
            headers.push(
                (String::from_str("Content-Range"), content_range_value(br.start, br.end, total)),
            );
            let r = ResponseDescriptor { status: 206, headers, body };
            proof {
                assert(r@.headers =~= spec_response(content@, mime@, *plan).headers);
            }
            r
        },
    }
}

/// Answer a request for an existing file: choose the interval from the
/// optional range header, slice the body, and attach the headers.
pub fn respond(content: &Vec<u8>, path: &str, header: Option<&str>) -> (r: Result<
    ResponseDescriptor,
    RangeError,
>)
    ensures
        spec_respond(content@, path@, header_view(header)) matches Ok(m) ==> (r matches Ok(resp)
            && resp@ == m),
        spec_respond(content@, path@, header_view(header)) matches Err(e) ==> (r matches Err(e2)
            && e2 == e),
{
    let len = content.len();
    match plan_request(len as u64, header) {
        Ok(plan) => {
            let mime = guess_mime(path);
            Ok(build_response(content, mime.as_str(), &plan))
        },
        Err(e) => Err(e),
    }
}

/// The whole core on one request: a 404 when the resource is absent,
/// otherwise the range-respecting response for its contents.
pub fn serve(exists: bool, content: &Vec<u8>, path: &str, header: Option<&str>) -> (r: Result<
    ResponseDescriptor,
    RangeError,
>)
    ensures
        spec_serve(exists, content@, path@, header_view(header)) matches Ok(m) ==> (r matches Ok(
            resp,
        ) && resp@ == m),
        spec_serve(exists, content@, path@, header_view(header)) matches Err(e) ==> (r matches Err(
            e2,
        ) && e2 == e),
{
    if exists {
        respond(content, path, header)
    } else {
        Ok(not_found())
    }
}

} // verus!
