use media_range::decimal::{parse_u64, u64_to_string};
use media_range::range::{plan_request, RangeError, RequestPlan};
use media_range::resolve::{resolve_locator, DecodeError};
use media_range::response::{not_found, respond, serve, ResponseDescriptor};
use media_range::ByteRange;

fn content() -> Vec<u8> {
    b"hello world".to_vec()
}

fn header_value(r: &ResponseDescriptor, name: &str) -> Option<String> {
    for (n, v) in r.headers.iter() {
        if n == name {
            return Some(v.clone());
        }
    }
    None
}

#[test]
fn whole_file_no_range() {
    let c = content();
    let r = respond(&c, "video.mp4", None).unwrap();
    assert_eq!(r.status, 200);
    assert_eq!(r.body, c);
    assert_eq!(header_value(&r, "Content-Type").unwrap(), "video/mp4");
    assert_eq!(header_value(&r, "Content-Length").unwrap(), "11");
    assert_eq!(
        header_value(&r, "Access-Control-Allow-Origin").unwrap(),
        "*"
    );
    assert!(header_value(&r, "Content-Range").is_none());
    assert_eq!(r.headers.len(), 3);
}

#[test]
fn first_byte_range() {
    let c = content();
    let r = respond(&c, "a.txt", Some("bytes=0-0")).unwrap();
    assert_eq!(r.status, 206);
    assert_eq!(r.body, vec![b'h']);
    assert_eq!(header_value(&r, "Content-Length").unwrap(), "1");
    assert_eq!(
        header_value(&r, "Content-Range").unwrap(),
        "bytes 0-0/11"
    );
}

#[test]
fn open_ended_range() {
    let c = content();
    let r = respond(&c, "a.txt", Some("bytes=5-")).unwrap();
    assert_eq!(r.status, 206);
    assert_eq!(r.body, c[5..].to_vec());
    assert_eq!(r.body.len(), c.len() - 5);
    assert_eq!(
        header_value(&r, "Content-Range").unwrap(),
        "bytes 5-10/11"
    );
}

#[test]
fn start_beyond_end_is_clamped() {
    let c = content();
    let r = respond(&c, "a.txt", Some("bytes=10-2")).unwrap();
    assert_eq!(r.status, 206);
    assert_eq!(r.body, vec![c[2]]);
    assert_eq!(r.body.len(), 1);
    assert_eq!(header_value(&r, "Content-Range").unwrap(), "bytes 2-2/11");
}

#[test]
fn nonexistent_path_is_404() {
    let c = content();
    let r = serve(false, &c, "gone.mp4", None).unwrap();
    assert_eq!(r.status, 404);
    assert!(r.body.is_empty());
    assert!(r.headers.is_empty());
    let r2 = serve(false, &c, "gone.mp4", Some("bytes=0-4")).unwrap();
    assert_eq!(r2.status, 404);
    assert!(r2.body.is_empty());
    let r3 = not_found();
    assert_eq!(r3.status, 404);
    assert!(r3.body.is_empty());
}

#[test]
fn round_trip_of_sequential_ranges() {
    let c: Vec<u8> = (0u8..20).collect();
    let mut rebuilt: Vec<u8> = Vec::new();
    for (s, e) in [(0u64, 4u64), (5, 11), (12, 19)] {
        let h = format!("bytes={}-{}", s, e);
        let r = respond(&c, "data.bin", Some(h.as_str())).unwrap();
        assert_eq!(r.status, 206);
        rebuilt.extend_from_slice(&r.body);
    }
    assert_eq!(rebuilt, c);
}

#[test]
fn malformed_range_defaults_but_reports_206() {
    let c = content();
    let r = respond(&c, "a.txt", Some("bytes=abc-def")).unwrap();
    assert_eq!(r.status, 206);
    assert_eq!(r.body, c);
    assert_eq!(
        header_value(&r, "Content-Range").unwrap(),
        "bytes 0-10/11"
    );
}

#[test]
fn suffix_form_reads_start_as_zero() {
    // Deliberate simplification: `bytes=-5` means bytes 0 through 5,
    // not the last five bytes.
    let c = content();
    let r = respond(&c, "a.txt", Some("bytes=-5")).unwrap();
    assert_eq!(r.status, 206);
    assert_eq!(r.body, c[0..=5].to_vec());
    assert_eq!(header_value(&r, "Content-Range").unwrap(), "bytes 0-5/11");
}

#[test]
fn header_without_bytes_prefix_counts_as_absent() {
    let c = content();
    let r = respond(&c, "a.txt", Some("items=0-5")).unwrap();
    assert_eq!(r.status, 200);
    assert_eq!(r.body, c);
    assert!(header_value(&r, "Content-Range").is_none());
}

#[test]
fn end_beyond_length_is_unsatisfiable() {
    let c = content();
    let r = respond(&c, "a.txt", Some("bytes=0-99"));
    assert!(matches!(r, Err(RangeError::Unsatisfiable)));
}

#[test]
fn empty_file_without_range_is_empty_200() {
    let c: Vec<u8> = Vec::new();
    let r = respond(&c, "empty.txt", None).unwrap();
    assert_eq!(r.status, 200);
    assert!(r.body.is_empty());
    assert_eq!(header_value(&r, "Content-Length").unwrap(), "0");
    assert!(header_value(&r, "Content-Range").is_none());
}

#[test]
fn empty_file_with_range_is_unsatisfiable() {
    let c: Vec<u8> = Vec::new();
    let r = respond(&c, "empty.txt", Some("bytes=0-0"));
    assert!(matches!(r, Err(RangeError::Unsatisfiable)));
}

#[test]
fn plan_request_parses_single_range() {
    assert_eq!(
        plan_request(100, Some("bytes=3-7")),
        Ok(RequestPlan::Partial(ByteRange { start: 3, end: 7 }))
    );
    assert_eq!(
        plan_request(100, Some("bytes=7-3")),
        Ok(RequestPlan::Partial(ByteRange { start: 3, end: 3 }))
    );
    assert_eq!(plan_request(100, None), Ok(RequestPlan::Full));
    // Extra dashes: only the first two fields count.
    assert_eq!(
        plan_request(100, Some("bytes=1-2-9")),
        Ok(RequestPlan::Partial(ByteRange { start: 1, end: 2 }))
    );
}

#[test]
fn resolver_strips_prefix_and_decodes() {
    assert_eq!(
        resolve_locator("media://localhost/movie%20night.mp4"),
        Ok(String::from("movie night.mp4"))
    );
}

#[test]
fn resolver_keeps_locator_without_prefix() {
    assert_eq!(resolve_locator("plain.txt"), Ok(String::from("plain.txt")));
}

#[test]
fn resolver_rejects_invalid_utf8() {
    assert_eq!(
        resolve_locator("media://localhost/%FF"),
        Err(DecodeError::InvalidUtf8)
    );
}

#[test]
fn content_type_follows_extension() {
    let c = content();
    let r = respond(&c, "notes.txt", None).unwrap();
    assert_eq!(header_value(&r, "Content-Type").unwrap(), "text/plain");
    let r2 = respond(&c, "strange.zz9q", None).unwrap();
    assert_eq!(
        header_value(&r2, "Content-Type").unwrap(),
        "application/octet-stream"
    );
}

#[test]
fn decimal_formatting_is_exact() {
    assert_eq!(u64_to_string(0), "0");
    assert_eq!(u64_to_string(7), "7");
    assert_eq!(u64_to_string(1234567890), "1234567890");
    assert_eq!(u64_to_string(u64::MAX), "18446744073709551615");
}

#[test]
fn decimal_parsing_matches_std() {
    assert_eq!(parse_u64("42"), Some(42));
    assert_eq!(parse_u64("+7"), Some(7));
    assert_eq!(parse_u64("0"), Some(0));
    assert_eq!(parse_u64(""), None);
    assert_eq!(parse_u64("+"), None);
    assert_eq!(parse_u64("abc"), None);
    assert_eq!(parse_u64("4 2"), None);
    assert_eq!(parse_u64("18446744073709551615"), Some(u64::MAX));
    assert_eq!(parse_u64("18446744073709551616"), None);
    assert_eq!(parse_u64("99999999999999999999999"), None);
}
