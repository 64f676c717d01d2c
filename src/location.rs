//! The URL of a request, held as its components.

use vstd::prelude::*;

verus! {

/// What `url::Url::parse` makes of a text: its serialization, where it parses.
pub uninterp spec fn url_text(s: Seq<char>) -> Option<Seq<char>>;

/// Relies on `url::Url::parse`, with `Url::as_str` to read the parsed URL back:
/// the text parses, or the parse error comes back.
#[verifier::external_body]
fn parse_url(s: &str) -> (r: Result<String, url::ParseError>)
    ensures
        r is Ok <==> url_text(s@) is Some,
        r matches Ok(t) ==> url_text(s@) == Some(t@),
{
    url::Url::parse(s).map(|u| u.as_str().to_string())
}

/// The decimal digit for `d < 10`.
pub open spec fn digit(d: nat) -> char {
    if d == 0 {
        '0'
    } else if d == 1 {
        '1'
    } else if d == 2 {
        '2'
    } else if d == 3 {
        '3'
    } else if d == 4 {
        '4'
    } else if d == 5 {
        '5'
    } else if d == 6 {
        '6'
    } else if d == 7 {
        '7'
    } else if d == 8 {
        '8'
    } else {
        '9'
    }
}

/// `n` written in decimal, without leading zeros.
pub open spec fn decimal(n: nat) -> Seq<char>
    decreases n,
{
    if n < 10 {
        seq![digit(n)]
    } else {
        decimal(n / 10) + seq![digit(n % 10)]
    }
}

fn digit_text(d: u16) -> (r: &'static str)
    requires
        d < 10,
    ensures
        r@ == seq![digit(d as nat)],
{
    proof {
        reveal_strlit("0");
        reveal_strlit("1");
        reveal_strlit("2");
        reveal_strlit("3");
        reveal_strlit("4");
        reveal_strlit("5");
        reveal_strlit("6");
        reveal_strlit("7");
        reveal_strlit("8");
        reveal_strlit("9");
    }
    if d == 0 {
        "0"
    } else if d == 1 {
        "1"
    } else if d == 2 {
        "2"
    } else if d == 3 {
        "3"
    } else if d == 4 {
        "4"
    } else if d == 5 {
        "5"
    } else if d == 6 {
        "6"
    } else if d == 7 {
        "7"
    } else if d == 8 {
        "8"
    } else {
        "9"
    }
}

/// Writes `n` in decimal.
pub fn decimal_text(n: u16) -> (r: String)
    ensures
        r@ == decimal(n as nat),
    decreases n,
{
    if n < 10 {
        String::from_str(digit_text(n))
    } else {
        let mut s = decimal_text(n / 10);
        s.append(digit_text(n % 10));
        s
    }
}

/// A character as it stands in a path, or in a query where `query` holds: `#`, and
/// `?` outside a query, are percent-encoded, since they would end the component.
pub open spec fn escape_char(c: char, query: bool) -> Seq<char> {
    if c == '#' {
        "%23"@
    } else if c == '?' && !query {
        "%3F"@
    } else {
        seq![c]
    }
}

/// A path, or a query where `query` holds, with each character escaped.
pub open spec fn escaped(s: Seq<char>, query: bool) -> Seq<char>
    decreases s.len(),
{
    if s.len() == 0 {
        Seq::empty()
    } else {
        escaped(s.drop_last(), query) + escape_char(s.last(), query)
    }
}

/// The `/` that goes before a path that does not start with one.
pub open spec fn root_of(path: Seq<char>) -> Seq<char> {
    if path.len() > 0 && path[0] != '/' {
        "/"@
    } else {
        Seq::empty()
    }
}

/// Appends `s` to `out`, escaped as a path, or as a query where `query` holds.
fn append_escaped(out: &mut String, s: &str, query: bool)
    ensures
        final(out)@ == old(out)@ + escaped(s@, query),
{
    proof {
        reveal_strlit("%23");
        reveal_strlit("%3F");
    }
    let n = s.unicode_len();
    let mut i: usize = 0;
    assert(s@.subrange(0, 0) =~= Seq::<char>::empty());
    while i < n
        invariant
            i <= n,
            n == s@.len(),
            out@ == old(out)@ + escaped(s@.subrange(0, i as int), query),
        decreases n - i,
    {
        let c = s.get_char(i);
        let ghost before = s@.subrange(0, i as int);
        if c == '#' {
            out.append("%23");
        } else if c == '?' && !query {
            out.append("%3F");
        } else {
            out.append(s.substring_char(i, i + 1));
        }
        i = i + 1;
        assert(s@.subrange(0, i as int).drop_last() =~= before);
        assert(s@.subrange(0, i as int).last() == c);
        assert(s@.subrange(i - 1, i as int) =~= seq![c]);
        assert(out@ =~= old(out)@ + escaped(s@.subrange(0, i as int), query));
    }
    assert(s@.subrange(0, n as int) =~= s@);
}

/// A URL's components as plain values.
pub struct LocationView {
    pub scheme: Seq<char>,
    pub host: Option<Seq<char>>,
    pub port: Option<u16>,
    pub path: Seq<char>,
    pub query: Option<Seq<char>>,
}

impl LocationView {
    /// The URL text the components compose: `scheme://host[:port]path[?query]`, with
    /// a `/` before a path that lacks one, and the path and query escaped.
    pub open spec fn text(self) -> Seq<char> {
        self.scheme + "://"@ + match self.host {
            Some(h) => h,
            None => Seq::empty(),
        } + match self.port {
            Some(p) => ":"@ + decimal(p as nat),
            None => Seq::empty(),
        } + root_of(self.path) + escaped(self.path, false) + match self.query {
            Some(q) => "?"@ + escaped(q, true),
            None => Seq::empty(),
        }
    }
}

/// The characters of an optional text.
pub open spec fn opt_chars(o: Option<String>) -> Option<Seq<char>> {
    match o {
        Some(s) => Some(s@),
        None => None,
    }
}

/// The components of a URL: scheme, host, port, path and query.
#[derive(Debug)]
pub struct Location {
    pub scheme: String,
    pub host: Option<String>,
    pub port: Option<u16>,
    pub path: String,
    pub query: Option<String>,
}

impl View for Location {
    type V = LocationView;

    open spec fn view(&self) -> LocationView {
        LocationView {
            scheme: self.scheme@,
            host: opt_chars(self.host),
            port: self.port,
            path: self.path@,
            query: opt_chars(self.query),
        }
    }
}

impl Location {
    /// A file URL for an absolute path.
    pub fn file(path: &str) -> (r: Location)
        ensures
            r@ == (LocationView {
                scheme: "file"@,
                host: None,
                port: None,
                path: path@,
                query: None,
            }),
    {
        proof {
            reveal_strlit("file");
        }
        Location {
            scheme: String::from_str("file"),
            host: None,
            port: None,
            path: String::from_str(path),
            query: None,
        }
    }

    /// Writes out the URL text of the components.
    pub fn compose(&self) -> (r: String)
        ensures
            r@ == self@.text(),
    {
        proof {
            reveal_strlit("://");
            reveal_strlit(":");
            reveal_strlit("?");
        }
        let mut s = self.scheme.clone();
        s.append("://");
        if let Some(h) = &self.host {
            s.append(h.as_str());
        }
        if let Some(p) = self.port {
            s.append(":");
            let digits = decimal_text(p);
            s.append(digits.as_str());
        }
        proof {
            reveal_strlit("/");
        }
        let path = self.path.as_str();
        if path.unicode_len() > 0 && path.get_char(0) != '/' {
            s.append("/");
        }
        append_escaped(&mut s, path, false);
        if let Some(q) = &self.query {
            s.append("?");
            append_escaped(&mut s, q.as_str(), true);
        }
        assert(s@ =~= self@.text());
        s
    }

    /// The URL the components compose, as the URL parser reads it back.
    pub fn parse(&self) -> (r: Result<String, url::ParseError>)
        ensures
            r is Ok <==> url_text(self@.text()) is Some,
            r matches Ok(t) ==> url_text(self@.text()) == Some(t@),
    {
        let s = self.compose();
        parse_url(s.as_str())
    }
}

} // verus!
