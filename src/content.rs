//! Content of PUT and POST requests, decoded by its declared media type.

use crate::error::Error;
use crate::location::opt_chars;
use crate::method::str_eq;
use crate::scan::{copy_range, find, first_from, lemma_first_from, occurs, occurs_at};
use vstd::prelude::*;
use vstd::utf8::{decode_utf8, encode_utf8, valid_utf8};

verus! {

/// A media type as plain values: type, subtype, `+suffix` and `boundary` parameter.
pub struct MediaTypeView {
    pub top: Seq<char>,
    pub sub: Seq<char>,
    pub suffix: Option<Seq<char>>,
    pub boundary: Option<Seq<char>>,
}

/// What mime's parser reads from a `Content-Type` value, where it parses.
pub uninterp spec fn media_of(header: Seq<char>) -> Option<MediaTypeView>;

/// Relies on mime's `FromStr for Mime`, with `Mime::type_`, `subtype`, `suffix` and
/// `get_param` to read the parsed value back: the header parses, or nothing comes back.
#[verifier::external_body]
fn parse_mime(header: &str) -> (r: Option<MediaType>)
    ensures
        r is None <==> media_of(header@) is None,
        r matches Some(m) ==> media_of(header@) == Some(m@),
{
    match header.parse::<mime::Mime>() {
        Ok(m) => Some(MediaType {
            top: m.type_().as_str().to_string(),
            sub: m.subtype().as_str().to_string(),
            suffix: m.suffix().map(|n| n.as_str().to_string()),
            boundary: m.get_param(mime::BOUNDARY).map(|n| n.as_str().to_string()),
        }),
        Err(_) => None,
    }
}

/// Relies on `String::from_utf8`: the bytes become text exactly when they are valid UTF-8.
#[verifier::external_body]
fn utf8_text(b: Vec<u8>) -> (r: Result<String, Vec<u8>>)
    ensures
        r is Ok <==> valid_utf8(b@),
        r matches Ok(s) ==> s@ == decode_utf8(b@),
        r matches Err(x) ==> x@ == b@,
{
    String::from_utf8(b).map_err(|e| e.into_bytes())
}

/// A parsed media type (`type/subtype[+suffix]; boundary=...`), lower case where mime
/// folds it.
#[derive(Debug)]
pub struct MediaType {
    pub top: String,
    pub sub: String,
    pub suffix: Option<String>,
    pub boundary: Option<String>,
}

impl View for MediaType {
    type V = MediaTypeView;

    open spec fn view(&self) -> MediaTypeView {
        MediaTypeView {
            top: self.top@,
            sub: self.sub@,
            suffix: opt_chars(self.suffix),
            boundary: opt_chars(self.boundary),
        }
    }
}

/// `text/plain`, the type of a part that declares none.
pub open spec fn text_plain() -> MediaTypeView {
    MediaTypeView { top: "text"@, sub: "plain"@, suffix: None, boundary: None }
}

impl MediaType {
    /// Parses a `Content-Type` value.
    pub fn parse(header: &str) -> (r: Option<MediaType>)
        ensures
            r is None <==> media_of(header@) is None,
            r matches Some(m) ==> media_of(header@) == Some(m@),
    {
        parse_mime(header)
    }

    /// `text/plain`.
    pub fn text_plain() -> (r: MediaType)
        ensures
            r@ == text_plain(),
    {
        proof {
            reveal_strlit("text");
            reveal_strlit("plain");
        }
        MediaType {
            top: String::from_str("text"),
            sub: String::from_str("plain"),
            suffix: None,
            boundary: None,
        }
    }

    /// `application/octet-stream`.
    pub fn octet_stream() -> (r: MediaType)
        ensures
            r@ == (MediaTypeView {
                top: "application"@,
                sub: "octet-stream"@,
                suffix: None,
                boundary: None,
            }),
    {
        proof {
            reveal_strlit("application");
            reveal_strlit("octet-stream");
        }
        MediaType {
            top: String::from_str("application"),
            sub: String::from_str("octet-stream"),
            suffix: None,
            boundary: None,
        }
    }
}

/// How a media type's content is stored.
#[derive(PartialEq, Eq, Structural, Clone, Copy, Debug)]
pub enum Kind {
    Form,
    Json,
    Xml,
    Multipart,
    Text,
    Binary,
}

/// The kind of a media type, the first of these that applies: URL-encoded form,
/// JSON, XML, multipart, other text, anything else.
pub open spec fn kind_of(m: MediaTypeView) -> Kind {
    if m.top == "application"@ && m.sub == "x-www-form-urlencoded"@ {
        Kind::Form
    } else if (m.top == "application"@ && m.sub == "json"@) || m.suffix == Some("json"@) {
        Kind::Json
    } else if ((m.top == "application"@ || m.top == "text"@) && m.sub == "xml"@) || m.suffix
        == Some("xml"@) {
        Kind::Xml
    } else if m.top == "multipart"@ {
        Kind::Multipart
    } else if m.top == "text"@ {
        Kind::Text
    } else {
        Kind::Binary
    }
}

fn opt_is(o: &Option<String>, s: &str) -> (r: bool)
    ensures
        r == (opt_chars(*o) == Some(s@)),
{
    match o {
        Some(x) => str_eq(x.as_str(), s),
        None => false,
    }
}

/// The kind of a media type.
pub fn kind(m: &MediaType) -> (r: Kind)
    ensures
        r == kind_of(m@),
{
    proof {
        reveal_strlit("application");
        reveal_strlit("x-www-form-urlencoded");
        reveal_strlit("json");
        reveal_strlit("xml");
        reveal_strlit("text");
        reveal_strlit("multipart");
    }
    let app = str_eq(m.top.as_str(), "application");
    let text = str_eq(m.top.as_str(), "text");
    if app && str_eq(m.sub.as_str(), "x-www-form-urlencoded") {
        Kind::Form
    } else if (app && str_eq(m.sub.as_str(), "json")) || opt_is(&m.suffix, "json") {
        Kind::Json
    } else if ((app || text) && str_eq(m.sub.as_str(), "xml")) || opt_is(&m.suffix, "xml") {
        Kind::Xml
    } else if str_eq(m.top.as_str(), "multipart") {
        Kind::Multipart
    } else if text {
        Kind::Text
    } else {
        Kind::Binary
    }
}

/// `--` followed by the boundary: the line that opens each part.
pub open spec fn delimiter(boundary: Seq<char>) -> Seq<u8> {
    seq![45u8, 45u8] + encode_utf8(boundary)
}

/// A line break.
pub open spec fn crlf() -> Seq<u8> {
    seq![13u8, 10u8]
}

/// The empty line that ends a part's headers.
pub open spec fn blank_line() -> Seq<u8> {
    seq![13u8, 10u8, 13u8, 10u8]
}

/// The parts of `s` from `pos`, which stands just past a delimiter: each runs up to the
/// next delimiter, and a delimiter followed by `--` closes the body.
pub open spec fn parts_from(s: Seq<u8>, d: Seq<u8>, pos: int) -> Seq<Seq<u8>>
    decreases s.len() - pos,
{
    if pos < 0 || pos > s.len() || d.len() == 0 || occurs_at(s, seq![45u8, 45u8], pos) {
        Seq::empty()
    } else {
        match first_from(s, d, pos) {
            Some(j) => if pos <= j && j + d.len() <= s.len() {
                seq![s.subrange(pos, j)] + parts_from(s, d, j + d.len())
            } else {
                Seq::empty()
            },
            None => Seq::empty(),
        }
    }
}

/// The raw parts of a multipart body split on delimiter `d`; what precedes the first
/// delimiter is preamble, and a part that no delimiter ends is dropped.
pub open spec fn raw_parts(s: Seq<u8>, d: Seq<u8>) -> Seq<Seq<u8>> {
    match first_from(s, d, 0) {
        Some(i) => parts_from(s, d, i + d.len()),
        None => Seq::empty(),
    }
}

/// `b` without a final line break.
pub open spec fn strip_crlf(b: Seq<u8>) -> Seq<u8> {
    if b.len() >= 2 && b.subrange(b.len() - 2, b.len() as int) == crlf() {
        b.subrange(0, b.len() - 2)
    } else {
        b
    }
}

/// The header block of a raw part: up to its first empty line.
pub open spec fn part_headers(p: Seq<u8>) -> Seq<u8> {
    match first_from(p, blank_line(), 0) {
        Some(k) => p.subrange(0, k),
        None => p,
    }
}

/// The body of a raw part: after its first empty line, without the line break that
/// precedes the next delimiter; empty where the part has no empty line.
pub open spec fn part_body(p: Seq<u8>) -> Seq<u8> {
    match first_from(p, blank_line(), 0) {
        Some(k) => if k + 4 <= p.len() {
            strip_crlf(p.subrange(k + 4, p.len() as int))
        } else {
            Seq::empty()
        },
        None => Seq::empty(),
    }
}

/// `l` without one leading space.
pub open spec fn skip_space(l: Seq<u8>) -> Seq<u8> {
    if l.len() > 0 && l[0] == 32u8 {
        l.subrange(1, l.len() as int)
    } else {
        l
    }
}

/// A byte in ASCII lower case.
pub open spec fn lower(b: u8) -> u8 {
    if 65 <= b <= 90 {
        (b + 32) as u8
    } else {
        b
    }
}

/// Bytes in ASCII lower case.
pub open spec fn lowered(s: Seq<u8>) -> Seq<u8> {
    s.map_values(|b: u8| lower(b))
}

/// The start of a `Content-Type` header line, in lower case: the line break that ends
/// the line before, and the header's name with its colon.
pub open spec fn header_key() -> Seq<u8> {
    encode_utf8("\r\ncontent-type:"@)
}

/// The value of the first `Content-Type` header in a header block, whose lines each
/// follow a line break, to the end of its line. The header's name is matched in any
/// case, at the start of a line.
pub open spec fn header_value(h: Seq<u8>) -> Option<Seq<u8>> {
    let key = header_key();
    match first_from(lowered(h), key, 0) {
        Some(i) => if i + key.len() <= h.len() {
            let rest = h.subrange(i + key.len(), h.len() as int);
            Some(
                skip_space(
                    match first_from(rest, crlf(), 0) {
                        Some(e) => if e <= rest.len() {
                            rest.subrange(0, e)
                        } else {
                            rest
                        },
                        None => rest,
                    },
                ),
            )
        } else {
            None
        },
        None => None,
    }
}

/// The media type a raw part declares; `text/plain` where it declares none that parses.
pub open spec fn part_media(p: Seq<u8>) -> MediaTypeView {
    declared_media(part_headers(p))
}

/// The media type a header block declares; `text/plain` where it declares none that parses.
pub open spec fn declared_media(h: Seq<u8>) -> MediaTypeView {
    match header_value(h) {
        Some(v) => if valid_utf8(v) {
            match media_of(decode_utf8(v)) {
                Some(m) => m,
                None => text_plain(),
            }
        } else {
            text_plain()
        },
        None => text_plain(),
    }
}

/// The stored form of decoded content.
#[derive(Debug)]
pub enum Data {
    /// URL-encoded form data.
    Form(String),
    /// JSON text.
    Json(String),
    /// XML text.
    Xml(String),
    /// Other plain text.
    Text(String),
    /// The parts of a multipart body, in order.
    Multipart(Vec<Data>),
    /// Binary data, byte for byte.
    Blob(Vec<u8>),
}

/// `d` stores `body` as text of kind `k` where the body is valid UTF-8, else as a blob.
pub open spec fn decoded(k: Kind, body: Seq<u8>, d: Data) -> bool {
    if valid_utf8(body) {
        let t = decode_utf8(body);
        match k {
            Kind::Form => d matches Data::Form(s) && s@ == t,
            Kind::Json => d matches Data::Json(s) && s@ == t,
            Kind::Xml => d matches Data::Xml(s) && s@ == t,
            _ => d matches Data::Text(s) && s@ == t,
        }
    } else {
        d matches Data::Blob(b) && b@ == body
    }
}

/// Whether content of type `m` can be decoded: every multipart body in it, at any
/// depth, declares its boundary.
pub open spec fn classifiable(m: MediaTypeView, body: Seq<u8>) -> bool
    decreases body.len(),
{
    kind_of(m) == Kind::Multipart ==> match m.boundary {
        Some(b) => forall|i: int|
            0 <= i < raw_parts(body, delimiter(b)).len() ==> part_body(
                #[trigger] raw_parts(body, delimiter(b))[i],
            ).len() < body.len() && classifiable(
                part_media(raw_parts(body, delimiter(b))[i]),
                part_body(raw_parts(body, delimiter(b))[i]),
            ),
        None => false,
    }
}

/// Whether raw part `p` of `body` is shorter than the body and decodes to `d`.
pub open spec fn part_decoded(p: Seq<u8>, body: Seq<u8>, d: Data) -> bool {
    part_body(p).len() < body.len() && classifiable(part_media(p), part_body(p)) && classifies(
        part_media(p),
        part_body(p),
        d,
    )
}

/// Whether `d` is what content of type `m` with body `body` decodes to.
pub open spec fn classifies(m: MediaTypeView, body: Seq<u8>, d: Data) -> bool
    decreases body.len(),
{
    match kind_of(m) {
        Kind::Multipart => match m.boundary {
            Some(b) => d matches Data::Multipart(v) && v@.len() == raw_parts(
                body,
                delimiter(b),
            ).len() && forall|i: int|
                0 <= i < v@.len() ==> part_body(#[trigger] raw_parts(body, delimiter(b))[i]).len()
                    < body.len() && classifies(
                    part_media(raw_parts(body, delimiter(b))[i]),
                    part_body(raw_parts(body, delimiter(b))[i]),
                    v@[i],
                ),
            None => false,
        },
        Kind::Binary => d matches Data::Blob(x) && x@ == body,
        k => decoded(k, body, d),
    }
}

/// The bytes of `views` for each vector.
pub open spec fn views(v: Seq<Vec<u8>>) -> Seq<Seq<u8>> {
    v.map_values(|x: Vec<u8>| x@)
}

/// Splits a multipart body on delimiter `d` into its raw parts.
pub fn split_parts(s: &[u8], d: &[u8]) -> (r: Vec<Vec<u8>>)
    requires
        d@.len() > 0,
    ensures
        r@.len() == raw_parts(s@, d@).len(),
        forall|i: int|
            0 <= i < r@.len() ==> #[trigger] r@[i]@ == raw_parts(s@, d@)[i] && r@[i]@.len()
                < s@.len(),
{
    let mut r: Vec<Vec<u8>> = Vec::new();
    let n = s.len();
    let dash: Vec<u8> = vec![45u8, 45u8];
    assert(dash@ =~= seq![45u8, 45u8]);
    match find(s, d, 0) {
        None => {
            assert(views(r@) =~= raw_parts(s@, d@));
        },
        Some(i) => {
            proof {
                lemma_first_from(s@, d@, 0);
            }
            let mut pos = i + d.len();
            loop
                invariant
                    d@.len() > 0,
                    n == s@.len(),
                    dash@ == seq![45u8, 45u8],
                    d@.len() <= pos <= s@.len(),
                    raw_parts(s@, d@) == views(r@) + parts_from(s@, d@, pos as int),
                    forall|j: int| 0 <= j < r@.len() ==> r@[j]@.len() < s@.len(),
                ensures
                    raw_parts(s@, d@) == views(r@),
                    forall|j: int| 0 <= j < r@.len() ==> r@[j]@.len() < s@.len(),
                decreases s@.len() - pos,
            {
                if occurs(s, dash.as_slice(), pos) {
                    assert(parts_from(s@, d@, pos as int) =~= Seq::<Seq<u8>>::empty());
                    assert(views(r@) + parts_from(s@, d@, pos as int) =~= views(r@));
                    break ;
                }
                match find(s, d, pos) {
                    None => {
                        assert(parts_from(s@, d@, pos as int) =~= Seq::<Seq<u8>>::empty());
                        assert(views(r@) + parts_from(s@, d@, pos as int) =~= views(r@));
                        break ;
                    },
                    Some(j) => {
                        proof {
                            lemma_first_from(s@, d@, pos as int);
                        }
                        assert(parts_from(s@, d@, pos as int) == seq![s@.subrange(pos as int, j as int)]
                            + parts_from(s@, d@, (j + d@.len()) as int));
                        let part = copy_range(s, pos, j);
                        let ghost before = r@;
                        r.push(part);
                        assert(views(r@) =~= views(before) + seq![s@.subrange(pos as int, j as int)]);
                        assert(views(r@) + parts_from(s@, d@, (j + d.len()) as int) =~= views(before)
                            + parts_from(s@, d@, pos as int));
                        pos = j + d.len();
                    },
                }
            }
        },
    }
    assert forall|i: int| 0 <= i < r@.len() implies r@[i]@ == raw_parts(s@, d@)[i] by {
        assert(views(r@)[i] == r@[i]@);
    }
    r
}

fn strip_line_break(b: Vec<u8>) -> (r: Vec<u8>)
    ensures
        r@ == strip_crlf(b@),
{
    let n = b.len();
    if n >= 2 && b[n - 2] == 13u8 && b[n - 1] == 10u8 {
        assert(b@.subrange(n - 2, n as int) =~= crlf());
        copy_range(b.as_slice(), 0, n - 2)
    } else {
        proof {
            if n >= 2 && b@.subrange(n - 2, n as int) == crlf() {
                assert(b@.subrange(n - 2, n as int)[0] == b@[n - 2]);
                assert(b@.subrange(n - 2, n as int)[1] == b@[n - 1]);
            }
        }
        b
    }
}

fn skip_leading_space(l: Vec<u8>) -> (r: Vec<u8>)
    ensures
        r@ == skip_space(l@),
{
    if l.len() > 0 && l[0] == 32u8 {
        copy_range(l.as_slice(), 1, l.len())
    } else {
        l
    }
}

/// The bytes of `s` in ASCII lower case.
fn lower_copy(s: &[u8]) -> (r: Vec<u8>)
    ensures
        r@ == lowered(s@),
{
    let mut r: Vec<u8> = Vec::new();
    let mut i: usize = 0;
    while i < s.len()
        invariant
            i <= s@.len(),
            r@ == lowered(s@.subrange(0, i as int)),
        decreases s@.len() - i,
    {
        let b = s[i];
        let l = if 65u8 <= b && b <= 90u8 {
            b + 32
        } else {
            b
        };
        r.push(l);
        i = i + 1;
        assert(r@ =~= lowered(s@.subrange(0, i as int)));
    }
    assert(s@.subrange(0, s@.len() as int) =~= s@);
    r
}

/// The value of the `Content-Type` header in a header block.
fn content_type_value(h: &[u8]) -> (r: Option<Vec<u8>>)
    ensures
        match r {
            Some(v) => header_value(h@) == Some(v@),
            None => header_value(h@) is None,
        },
{
    proof {
        reveal_strlit("\r\ncontent-type:");
    }
    let key = "\r\ncontent-type:".as_bytes();
    assert(key@ == header_key());
    let low = lower_copy(h);
    let n = low.len();
    match find(low.as_slice(), key, 0) {
        None => None,
        Some(i) => {
            proof {
                lemma_first_from(low@, key@, 0);
            }
            let rest = copy_range(h, i + key.len(), n);
            let line_break: [u8; 2] = [13u8, 10u8];
            assert(line_break@ =~= crlf());
            let line = match find(rest.as_slice(), line_break.as_slice(), 0) {
                Some(e) => {
                    proof {
                        lemma_first_from(rest@, crlf(), 0);
                    }
                    copy_range(rest.as_slice(), 0, e)
                },
                None => rest,
            };
            Some(skip_leading_space(line))
        },
    }
}

/// The media type a header block declares.
fn read_media(h: &[u8]) -> (r: MediaType)
    ensures
        r@ == declared_media(h@),
{
    match content_type_value(h) {
        None => MediaType::text_plain(),
        Some(v) => match utf8_text(v) {
            Ok(t) => match parse_mime(t.as_str()) {
                Some(m) => m,
                None => MediaType::text_plain(),
            },
            Err(_) => MediaType::text_plain(),
        },
    }
}

/// Reads a raw part's declared media type and its body.
pub fn split_part(p: &[u8]) -> (r: (MediaType, Vec<u8>))
    ensures
        r.0@ == part_media(p@),
        r.1@ == part_body(p@),
        r.1@.len() <= p@.len(),
{
    let n = p.len();
    let blank: [u8; 4] = [13u8, 10u8, 13u8, 10u8];
    assert(blank@ =~= blank_line());
    match find(p, blank.as_slice(), 0) {
        Some(k) => {
            proof {
                lemma_first_from(p@, blank_line(), 0);
            }
            let rest = copy_range(p, k + 4, n);
            let body = strip_line_break(rest);
            let headers = copy_range(p, 0, k);
            (read_media(headers.as_slice()), body)
        },
        None => {
            assert(p@.subrange(0, p@.len() as int) =~= p@);
            (read_media(p), Vec::new())
        },
    }
}

/// The delimiter of a boundary: `--` and the boundary's bytes.
fn delimiter_bytes(b: &String) -> (r: Vec<u8>)
    ensures
        r@ == delimiter(b@),
{
    let mut d: Vec<u8> = Vec::new();
    d.push(45u8);
    d.push(45u8);
    let bb = b.as_str().as_bytes();
    let mut i: usize = 0;
    while i < bb.len()
        invariant
            i <= bb@.len(),
            bb@ == encode_utf8(b@),
            d@ == seq![45u8, 45u8] + bb@.subrange(0, i as int),
        decreases bb@.len() - i,
    {
        d.push(bb[i]);
        i = i + 1;
        assert(d@ =~= seq![45u8, 45u8] + bb@.subrange(0, i as int));
    }
    assert(bb@.subrange(0, bb@.len() as int) =~= bb@);
    d
}

/// Decodes a body declared as `media`: text kinds as text where the body is valid
/// UTF-8 (else as a blob), multipart bodies part by part, anything else as a blob.
/// UTF-8 is the only encoding decoded: a declared `charset` is not read, and bytes
/// that are not UTF-8 are kept as they came.
#[verifier::loop_isolation(false)]
pub fn classify(media: &MediaType, body: Vec<u8>) -> (r: Result<Data, Error>)
    ensures
        r is Ok <==> classifiable(media@, body@),
        r matches Ok(d) ==> classifies(media@, body@, d),
        r matches Err(e) ==> e is MultipartBoundaryMissing,
    decreases body@.len(),
{
    let k = kind(media);
    match k {
        Kind::Binary => Ok(Data::Blob(body)),
        Kind::Multipart => match &media.boundary {
            None => Err(Error::MultipartBoundaryMissing),
            Some(b) => {
                let d = delimiter_bytes(b);
                let parts = split_parts(body.as_slice(), d.as_slice());
                let ghost raw = raw_parts(body@, delimiter(b@));
                assert(forall|j: int| 0 <= j < parts@.len() ==> parts@[j]@ == raw[j]);
                assert(forall|j: int| 0 <= j < parts@.len() ==> parts@[j]@.len() < body@.len());
                let mut out: Vec<Data> = Vec::new();
                let mut i: usize = 0;
                while i < parts.len()
                    invariant
                        i <= parts@.len(),
                        parts@.len() == raw.len(),
                        raw == raw_parts(body@, delimiter(b@)),
                        forall|j: int|
                            0 <= j < parts@.len() ==> parts@[j]@ == raw[j] && parts@[j]@.len()
                                < body@.len(),
                        out@.len() == i,
                        forall|j: int| 0 <= j < i ==> part_decoded(raw[j], body@, #[trigger] out@[j]),
                    decreases parts@.len() - i,
                {
                    let (m, pb) = split_part(parts[i].as_slice());
                    assert(pb@.len() < body@.len());
                    assert(m@ == part_media(raw[i as int]) && pb@ == part_body(raw[i as int]));
                    match classify(&m, pb) {
                        Ok(x) => {
                            let ghost before = out@;
                            out.push(x);
                            assert forall|j: int| 0 <= j <= i implies part_decoded(
                                raw[j],
                                body@,
                                #[trigger] out@[j],
                            ) by {
                                if j < i {
                                    assert(out@[j] == before[j]);
                                }
                            }
                        },
                        Err(e) => {
                            proof {
                                let q = raw_parts(body@, delimiter(b@))[i as int];
                                assert(!classifiable(part_media(q), part_body(q)));
                            }
                            return Err(e);
                        },
                    }
                    i = i + 1;
                }
                assert forall|j: int| 0 <= j < raw.len() implies part_body(
                    #[trigger] raw_parts(body@, delimiter(b@))[j],
                ).len() < body@.len() && classifiable(
                    part_media(raw_parts(body@, delimiter(b@))[j]),
                    part_body(raw_parts(body@, delimiter(b@))[j]),
                ) by {
                    assert(raw[j] == raw_parts(body@, delimiter(b@))[j]);
                    assert(part_decoded(raw[j], body@, out@[j]));
                }
                Ok(Data::Multipart(out))
            },
        },
        _ => match utf8_text(body) {
            Ok(t) => Ok(
                match k {
                    Kind::Form => Data::Form(t),
                    Kind::Json => Data::Json(t),
                    Kind::Xml => Data::Xml(t),
                    _ => Data::Text(t),
                },
            ),
            Err(b) => Ok(Data::Blob(b)),
        },
    }
}

/// Content of a PUT or POST request, stored by its media type.
#[derive(Debug)]
pub struct Content {
    pub media: MediaType,
    pub data: Data,
}

impl Content {
    /// Decodes `body` by its declared media type.
    pub fn classify(media: MediaType, body: Vec<u8>) -> (r: Result<Content, Error>)
        ensures
            r is Ok <==> classifiable(media@, body@),
            r matches Ok(c) ==> c.media@ == media@ && classifies(media@, body@, c.data),
            r matches Err(e) ==> e is MultipartBoundaryMissing,
    {
        match classify(&media, body) {
            Ok(data) => Ok(Content { media, data }),
            Err(e) => Err(e),
        }
    }
}

} // verus!
