use std::str::FromStr;
use strck::headers::{ExtraHeader, ExtraHeaderError, Headers};

#[test]
fn empty_header() {
    assert_eq!(ExtraHeader::from_str(""), Err(ExtraHeaderError::MissingColon));
}

#[test]
fn only_colon() {
    assert_eq!(ExtraHeader::from_str(":"), Err(ExtraHeaderError::InvalidName));
}

#[test]
fn simple_header() {
    assert_eq!(
        ExtraHeader::from_str("a: b"),
        Ok(ExtraHeader { name: b"a".to_vec(), value: b"b".to_vec() })
    );
}

#[test]
fn name_is_lower_cased() {
    assert_eq!(
        ExtraHeader::from_str("X-Custom-Header: v"),
        Ok(ExtraHeader { name: b"x-custom-header".to_vec(), value: b"v".to_vec() })
    );
}

#[test]
fn bad_value_byte() {
    assert_eq!(
        ExtraHeader::from_str("a: b\u{7f}c"),
        Err(ExtraHeaderError::InvalidValue)
    );
}

#[test]
fn error_text() {
    assert_eq!(
        ExtraHeaderError::MissingColon.to_string(),
        "Header definition should contain a colon \":\""
    );
    assert_eq!(ExtraHeaderError::InvalidName.to_string(), "Invalid header name");
    assert_eq!(ExtraHeaderError::InvalidValue.to_string(), "Invalid header value");
}

#[test]
fn header_map_lookup() {
    let mut h = Headers::new();
    h.push(b"Content-Type", b"application/vnd.apple.mpegurl");
    h.push(b"ETag", b"\"abc\"");
    assert_eq!(
        h.get(b"content-type").map(|v| v.as_slice()),
        Some(&b"application/vnd.apple.mpegurl"[..])
    );
    assert_eq!(h.get(b"etag").map(|v| v.as_slice()), Some(&b"\"abc\""[..]));
    assert!(h.get(b"age").is_none());
    assert!(h.has(b"etag"));
    assert!(!h.has(b"last-modified"));
}
