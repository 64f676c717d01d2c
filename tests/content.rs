use cgi::content::{classify, split_part, split_parts};
use cgi::location::decimal_text;
use cgi::scan::find;
use cgi::{Content, Data, Error, Kind, MediaType};

fn media(s: &str) -> MediaType {
    MediaType::parse(s).unwrap()
}

fn text_of(d: &Data) -> (&'static str, String) {
    match d {
        Data::Form(s) => ("form", s.clone()),
        Data::Json(s) => ("json", s.clone()),
        Data::Xml(s) => ("xml", s.clone()),
        Data::Text(s) => ("text", s.clone()),
        Data::Multipart(v) => ("multipart", format!("{}", v.len())),
        Data::Blob(b) => ("blob", format!("{:?}", b)),
    }
}

#[test]
fn classify_json() {
    let c = Content::classify(media("application/json"), b"{}".to_vec()).unwrap();
    assert_eq!(text_of(&c.data), ("json", "{}".to_string()));
}

#[test]
fn classify_octet_stream() {
    let c = Content::classify(media("application/octet-stream"), vec![0x00, 0x01]).unwrap();
    match c.data {
        Data::Blob(b) => assert_eq!(b, vec![0x00, 0x01]),
        other => panic!("unexpected {:?}", other),
    }
}

#[test]
fn classify_each_kind() {
    let f = classify(&media("application/x-www-form-urlencoded"), b"a=1&b=2".to_vec()).unwrap();
    assert_eq!(text_of(&f), ("form", "a=1&b=2".to_string()));
    let x = classify(&media("application/xml"), b"<a/>".to_vec()).unwrap();
    assert_eq!(text_of(&x), ("xml", "<a/>".to_string()));
    let s = classify(&media("image/svg+xml"), b"<svg/>".to_vec()).unwrap();
    assert_eq!(text_of(&s), ("xml", "<svg/>".to_string()));
    let j = classify(&media("application/ld+json"), b"[]".to_vec()).unwrap();
    assert_eq!(text_of(&j), ("json", "[]".to_string()));
    let t = classify(&media("text/html; charset=utf-8"), b"<p>".to_vec()).unwrap();
    assert_eq!(text_of(&t), ("text", "<p>".to_string()));
    let b = classify(&media("image/png"), b"PNG".to_vec()).unwrap();
    assert_eq!(text_of(&b), ("blob", "[80, 78, 71]".to_string()));
}

#[test]
fn classify_empty_text_is_empty_text() {
    let t = classify(&media("text/plain"), Vec::new()).unwrap();
    assert_eq!(text_of(&t), ("text", String::new()));
}

#[test]
fn classify_invalid_utf8_is_blob() {
    let t = classify(&media("text/plain"), vec![0xff, 0xfe]).unwrap();
    assert_eq!(text_of(&t), ("blob", "[255, 254]".to_string()));
}

#[test]
fn media_type_is_folded_and_read() {
    let m = media("Multipart/Form-Data; boundary=AbC");
    assert_eq!(m.top, "multipart");
    assert_eq!(m.sub, "form-data");
    assert_eq!(m.boundary.as_deref(), Some("AbC"));
    assert!(cgi::content::kind(&m) == Kind::Multipart);
    assert!(MediaType::parse("not a media type").is_none());
}

#[test]
fn multipart_round_trip() {
    let body = b"preamble\r\n--XyZ\r\nContent-Type: application/json\r\n\r\n{\"a\":1}\r\n--XyZ\r\nContent-Type: text/plain\r\n\r\nhello\r\n--XyZ\r\n\r\nno header\r\n--XyZ\r\nContent-Type: application/octet-stream\r\n\r\n\x00\x01\r\n--XyZ--\r\n";
    let d = classify(&media("multipart/mixed; boundary=XyZ"), body.to_vec()).unwrap();
    match d {
        Data::Multipart(parts) => {
            assert_eq!(parts.len(), 4);
            assert_eq!(text_of(&parts[0]), ("json", "{\"a\":1}".to_string()));
            assert_eq!(text_of(&parts[1]), ("text", "hello".to_string()));
            assert_eq!(text_of(&parts[2]), ("text", "no header".to_string()));
            assert_eq!(text_of(&parts[3]), ("blob", "[0, 1]".to_string()));
        },
        other => panic!("unexpected {:?}", other),
    }
}

#[test]
fn multipart_nested() {
    let body = b"--out\r\nContent-Type: multipart/mixed; boundary=in\r\n\r\n--in\r\n\r\na\r\n--in\r\n\r\nb\r\n--in--\r\n--out--";
    let d = classify(&media("multipart/mixed; boundary=out"), body.to_vec()).unwrap();
    match d {
        Data::Multipart(outer) => {
            assert_eq!(outer.len(), 1);
            match &outer[0] {
                Data::Multipart(inner) => {
                    assert_eq!(inner.len(), 2);
                    assert_eq!(text_of(&inner[0]), ("text", "a".to_string()));
                    assert_eq!(text_of(&inner[1]), ("text", "b".to_string()));
                },
                other => panic!("unexpected {:?}", other),
            }
        },
        other => panic!("unexpected {:?}", other),
    }
}

#[test]
fn multipart_empty_body_has_no_parts() {
    let d = classify(&media("multipart/form-data; boundary=b"), Vec::new()).unwrap();
    assert_eq!(text_of(&d), ("multipart", "0".to_string()));
}

#[test]
fn multipart_without_boundary_is_an_error() {
    let r = classify(&media("multipart/form-data"), b"--x\r\n".to_vec());
    assert!(matches!(r, Err(Error::MultipartBoundaryMissing)));
    let nested = b"--o\r\nContent-Type: multipart/mixed\r\n\r\nx\r\n--o--";
    let r = classify(&media("multipart/mixed; boundary=o"), nested.to_vec());
    assert!(matches!(r, Err(Error::MultipartBoundaryMissing)));
}

#[test]
fn split_parts_and_part() {
    let parts = split_parts(b"--b\r\nA\r\n--b\r\nB\r\n--b--", b"--b");
    assert_eq!(parts, vec![b"\r\nA\r\n".to_vec(), b"\r\nB\r\n".to_vec()]);
    let unterminated = split_parts(b"--b\r\nA", b"--b");
    assert!(unterminated.is_empty());
    let (m, body) = split_part(b"\r\nContent-Type: text/xml\r\n\r\n<x/>\r\n");
    assert_eq!(m.sub, "xml");
    assert_eq!(body, b"<x/>".to_vec());
}

#[test]
fn find_pattern() {
    assert_eq!(find(b"abcabc", b"ca", 0), Some(2));
    assert_eq!(find(b"abcabc", b"ab", 1), Some(3));
    assert_eq!(find(b"abc", b"x", 0), None);
    assert_eq!(find(b"abc", b"", 3), Some(3));
}

#[test]
fn decimal_digits() {
    assert_eq!(decimal_text(0), "0");
    assert_eq!(decimal_text(81), "81");
    assert_eq!(decimal_text(65535), "65535");
}
