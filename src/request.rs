//! The request of one CGI invocation, its builder, and the guard that lets the
//! environment be read once.

use crate::content::{classifiable, classifies, Content, MediaType, MediaTypeView, media_of};
use crate::error::Error;
use crate::location::{opt_chars, url_text, Location, LocationView};
use crate::method::Method;
use vstd::prelude::*;

verus! {

/// A request's fields as plain values.
pub struct RequestView {
    pub http_version: Seq<char>,
    pub cgi_version: Seq<char>,
    pub method: Method,
    pub location: LocationView,
    pub path_info: Option<Seq<char>>,
    pub path_translated: Option<Seq<char>>,
    pub script: Seq<char>,
    pub user: Option<Seq<char>>,
    pub ident: Option<Seq<char>>,
    pub auth: Option<Seq<char>>,
    pub client: [u8; 4],
    pub content: Option<Content>,
}

/// The characters of an optional text; none when absent.
pub open spec fn chars_or_empty(o: Option<Seq<char>>) -> Seq<char> {
    match o {
        Some(s) => s,
        None => Seq::empty(),
    }
}

impl RequestView {
    /// The path of the URL: the script followed by the path info.
    pub open spec fn composite_path(self) -> Seq<char> {
        self.script + chars_or_empty(self.path_info)
    }

    /// What holds of every request: its URL's path is the composite path, at most one of
    /// user and ident is set, and only a PUT or POST carries content.
    pub open spec fn wf(self) -> bool {
        &&& self.location.path == self.composite_path()
        &&& !(self.user is Some && self.ident is Some)
        &&& self.content is Some ==> self.method.carries_content()
    }
}

/// The request data of one CGI invocation.
pub struct Request {
    /// HTTP version (`SERVER_PROTOCOL`).
    http_version: String,
    /// CGI version (`GATEWAY_INTERFACE`).
    cgi_version: String,
    /// `REQUEST_METHOD`.
    method: Method,
    /// The components of the request's URL.
    location: Location,
    /// The path after the URL of the CGI script (`PATH_INFO`).
    path_info: Option<String>,
    /// The path info translated against the document root (`PATH_TRANSLATED`).
    path_translated: Option<String>,
    /// The path of the CGI script (`SCRIPT_NAME`).
    script: String,
    /// Remote user authenticated by the server (`REMOTE_USER`).
    user: Option<String>,
    /// Remote identity reported by the client (`REMOTE_IDENT`).
    ident: Option<String>,
    /// Authentication type used (`AUTH_TYPE`).
    auth: Option<String>,
    /// The client's IPv4 address (`REMOTE_ADDR`).
    client: [u8; 4],
    /// Processed content of a POST or PUT.
    content: Option<Content>,
}

impl View for Request {
    type V = RequestView;

    closed spec fn view(&self) -> RequestView {
        RequestView {
            http_version: self.http_version@,
            cgi_version: self.cgi_version@,
            method: self.method,
            location: self.location@,
            path_info: opt_chars(self.path_info),
            path_translated: opt_chars(self.path_translated),
            script: self.script@,
            user: opt_chars(self.user),
            ident: opt_chars(self.ident),
            auth: opt_chars(self.auth),
            client: self.client,
            content: self.content,
        }
    }
}

fn copy_opt(o: &Option<String>) -> (r: Option<String>)
    ensures
        opt_chars(r) == opt_chars(*o),
{
    match o {
        Some(s) => Some(String::from_str(s.as_str())),
        None => None,
    }
}

fn opt_owned(o: Option<&str>) -> (r: Option<String>)
    ensures
        opt_chars(r) == match o {
            Some(s) => Some(s@),
            None => None::<Seq<char>>,
        },
{
    match o {
        Some(s) => Some(String::from_str(s)),
        None => None,
    }
}

fn opt_str(o: &Option<String>) -> (r: Option<&str>)
    ensures
        opt_chars(*o) == match r {
            Some(s) => Some(s@),
            None => None::<Seq<char>>,
        },
{
    match o {
        Some(s) => Some(s.as_str()),
        None => None,
    }
}

impl Request {
    /// The default request: HTTP/1.0, CGI/1.1, a GET of the script at `script` as a
    /// file URL, from the loopback address, with nothing else set.
    fn seed(script: &str) -> (r: Request)
        ensures
            r@ == (RequestView {
                http_version: "HTTP/1.0"@,
                cgi_version: "CGI/1.1"@,
                method: Method::Get,
                location: LocationView {
                    scheme: "file"@,
                    host: None,
                    port: None,
                    path: script@,
                    query: None,
                },
                path_info: None,
                path_translated: None,
                script: script@,
                user: None,
                ident: None,
                auth: None,
                client: [127u8, 0u8, 0u8, 1u8],
                content: None,
            }),
    {
        proof {
            reveal_strlit("HTTP/1.0");
            reveal_strlit("CGI/1.1");
        }
        Request {
            http_version: String::from_str("HTTP/1.0"),
            cgi_version: String::from_str("CGI/1.1"),
            method: Method::Get,
            location: Location::file(script),
            path_info: None,
            path_translated: None,
            script: String::from_str(script),
            user: None,
            ident: None,
            auth: None,
            client: [127u8, 0u8, 0u8, 1u8],
            content: None,
        }
    }

    /// Recomputes the URL's path as the script followed by the path info.
    fn update_path(&mut self)
        ensures
            final(self)@ == (RequestView {
                location: LocationView { path: old(self)@.composite_path(), ..old(self)@.location },
                ..old(self)@
            }),
    {
        let mut composite = String::from_str(self.script.as_str());
        if let Some(info) = &self.path_info {
            composite.append(info.as_str());
        }
        self.location.path = composite;
    }

    /// The URL of the request, as the URL parser reads back the text that its
    /// components compose; the parser's error where they form no URL.
    pub fn url(&self) -> (r: Result<String, Error>)
        ensures
            r is Ok <==> url_text(self@.location.text()) is Some,
            r matches Ok(t) ==> url_text(self@.location.text()) == Some(t@),
            r matches Err(e) ==> e is UrlParse,
    {
        match self.location.parse() {
            Ok(t) => Ok(t),
            Err(e) => Err(Error::from(e)),
        }
    }

    /// The components of the request's URL.
    pub fn location(&self) -> (r: &Location)
        ensures
            r@ == self@.location,
    {
        &self.location
    }

    /// The HTTP version.
    pub fn http_version(&self) -> (r: &str)
        ensures
            r@ == self@.http_version,
    {
        self.http_version.as_str()
    }

    /// The CGI version.
    pub fn cgi_version(&self) -> (r: &str)
        ensures
            r@ == self@.cgi_version,
    {
        self.cgi_version.as_str()
    }

    /// The request method.
    pub fn method(&self) -> (r: Method)
        ensures
            r == self@.method,
    {
        self.method
    }

    /// The path of the CGI script.
    pub fn script(&self) -> (r: &str)
        ensures
            r@ == self@.script,
    {
        self.script.as_str()
    }

    /// The path info, if any.
    pub fn path_info(&self) -> (r: Option<&str>)
        ensures
            self@.path_info == match r {
                Some(s) => Some(s@),
                None => None::<Seq<char>>,
            },
    {
        opt_str(&self.path_info)
    }

    /// The translated path info, if any.
    pub fn path_translated(&self) -> (r: Option<&str>)
        ensures
            self@.path_translated == match r {
                Some(s) => Some(s@),
                None => None::<Seq<char>>,
            },
    {
        opt_str(&self.path_translated)
    }

    /// The authenticated user, if any.
    pub fn user(&self) -> (r: Option<&str>)
        ensures
            self@.user == match r {
                Some(s) => Some(s@),
                None => None::<Seq<char>>,
            },
    {
        opt_str(&self.user)
    }

    /// The remote identity, if any.
    pub fn ident(&self) -> (r: Option<&str>)
        ensures
            self@.ident == match r {
                Some(s) => Some(s@),
                None => None::<Seq<char>>,
            },
    {
        opt_str(&self.ident)
    }

    /// The authentication type, if any.
    pub fn auth(&self) -> (r: Option<&str>)
        ensures
            self@.auth == match r {
                Some(s) => Some(s@),
                None => None::<Seq<char>>,
            },
    {
        opt_str(&self.auth)
    }

    /// The client's IPv4 address.
    pub fn client(&self) -> (r: [u8; 4])
        ensures
            r == self@.client,
    {
        self.client
    }

    /// The content of a PUT or POST, if any.
    pub fn content(&self) -> (r: Option<&Content>)
        ensures
            r matches Some(c) ==> self@.content == Some(*c),
            r is None <==> self@.content is None,
    {
        match &self.content {
            Some(c) => Some(c),
            None => None,
        }
    }
}

/// Builds requests from components, for tests and command-line emulation.
pub struct Builder {
    request: Request,
}

impl View for Builder {
    type V = RequestView;

    closed spec fn view(&self) -> RequestView {
        self.request@
    }
}

impl Builder {
    /// A builder seeded with the default request for the script at `script`: HTTP/1.0,
    /// CGI/1.1, a GET of `file://` and the script's path, from the loopback address.
    pub fn new(script: &str) -> (r: Builder)
        ensures
            r@.wf(),
            r@ == (RequestView {
                http_version: "HTTP/1.0"@,
                cgi_version: "CGI/1.1"@,
                method: Method::Get,
                location: LocationView {
                    scheme: "file"@,
                    host: None,
                    port: None,
                    path: script@,
                    query: None,
                },
                path_info: None,
                path_translated: None,
                script: script@,
                user: None,
                ident: None,
                auth: None,
                client: [127u8, 0u8, 0u8, 1u8],
                content: None,
            }),
    {
        let r = Builder { request: Request::seed(script) };
        assert(r@.composite_path() =~= script@);
        r
    }

    /// The request built.
    pub fn build(self) -> (r: Request)
        ensures
            r@ == self@,
    {
        self.request
    }

    /// Sets the HTTP protocol version.
    pub fn http_version(self, version: &str) -> (r: Builder)
        requires
            self@.wf(),
        ensures
            r@.wf(),
            r@ == (RequestView { http_version: version@, ..self@ }),
    {
        let mut b = self;
        b.request.http_version = String::from_str(version);
        b
    }

    /// Sets the CGI protocol version.
    pub fn cgi_version(self, version: &str) -> (r: Builder)
        requires
            self@.wf(),
        ensures
            r@.wf(),
            r@ == (RequestView { cgi_version: version@, ..self@ }),
    {
        let mut b = self;
        b.request.cgi_version = String::from_str(version);
        b
    }

    /// Sets the request method; content is dropped unless the method is PUT or POST.
    pub fn method(self, method: Method) -> (r: Builder)
        requires
            self@.wf(),
        ensures
            r@.wf(),
            r@ == (RequestView {
                method,
                content: if method.carries_content() {
                    self@.content
                } else {
                    None
                },
                ..self@
            }),
    {
        let mut b = self;
        b.request.method = method;
        if !(method == Method::Put || method == Method::Post) {
            b.request.content = None;
        }
        b
    }

    /// Makes the request a GET, which carries no content.
    pub fn get(self) -> (r: Builder)
        requires
            self@.wf(),
        ensures
            r@.wf(),
            r@ == (RequestView { method: Method::Get, content: None, ..self@ }),
    {
        self.method(Method::Get)
    }

    /// Makes the request a PUT of `content`.
    pub fn put(self, content: Option<Content>) -> (r: Builder)
        requires
            self@.wf(),
        ensures
            r@.wf(),
            r@ == (RequestView { method: Method::Put, content, ..self@ }),
    {
        let mut b = self.method(Method::Put);
        b.request.content = content;
        b
    }

    /// Makes the request a POST of `content`.
    pub fn post(self, content: Option<Content>) -> (r: Builder)
        requires
            self@.wf(),
        ensures
            r@.wf(),
            r@ == (RequestView { method: Method::Post, content, ..self@ }),
    {
        let mut b = self.method(Method::Post);
        b.request.content = content;
        b
    }

    /// Sets the server's host name.
    pub fn host(self, host: &str) -> (r: Builder)
        requires
            self@.wf(),
        ensures
            r@.wf(),
            r@ == (RequestView {
                location: LocationView { host: Some(host@), ..self@.location },
                ..self@
            }),
    {
        let mut b = self;
        b.request.location.host = Some(String::from_str(host));
        b
    }

    /// Sets the server's port, and with it the scheme to `http`.
    pub fn port(self, port: u16) -> (r: Builder)
        requires
            self@.wf(),
        ensures
            r@.wf(),
            r@ == (RequestView {
                location: LocationView { scheme: "http"@, port: Some(port), ..self@.location },
                ..self@
            }),
    {
        proof {
            reveal_strlit("http");
        }
        let mut b = self;
        b.request.location.scheme = String::from_str("http");
        b.request.location.port = Some(port);
        b
    }

    /// Sets the script path; the URL's path follows.
    pub fn script(self, script: &str) -> (r: Builder)
        requires
            self@.wf(),
        ensures
            r@.wf(),
            r@ == (RequestView {
                script: script@,
                location: LocationView {
                    path: script@ + chars_or_empty(self@.path_info),
                    ..self@.location
                },
                ..self@
            }),
    {
        let mut b = self;
        b.request.script = String::from_str(script);
        b.request.update_path();
        b
    }

    /// Sets the path info, translated against the document root `base`; the URL's path
    /// follows.
    pub fn path_info(self, base: &str, info: &str) -> (r: Builder)
        requires
            self@.wf(),
        ensures
            r@.wf(),
            r@ == (RequestView {
                path_info: Some(info@),
                path_translated: Some(base@ + info@),
                location: LocationView { path: self@.script + info@, ..self@.location },
                ..self@
            }),
    {
        let mut b = self;
        b.request.path_info = Some(String::from_str(info));
        let mut translated = String::from_str(base);
        translated.append(info);
        b.request.path_translated = Some(translated);
        b.request.update_path();
        b
    }

    /// Sets the authenticated user and the authentication type; clears the ident.
    pub fn user(self, user: &str, method: Option<&str>) -> (r: Builder)
        requires
            self@.wf(),
        ensures
            r@.wf(),
            r@ == (RequestView {
                user: Some(user@),
                ident: None,
                auth: match method {
                    Some(m) => Some(m@),
                    None => None::<Seq<char>>,
                },
                ..self@
            }),
    {
        let mut b = self;
        b.request.user = Some(String::from_str(user));
        b.request.auth = opt_owned(method);
        b.request.ident = None;
        b
    }

    /// Sets the remote identity and the authentication type; clears the user.
    pub fn ident(self, ident: &str, method: Option<&str>) -> (r: Builder)
        requires
            self@.wf(),
        ensures
            r@.wf(),
            r@ == (RequestView {
                ident: Some(ident@),
                user: None,
                auth: match method {
                    Some(m) => Some(m@),
                    None => None::<Seq<char>>,
                },
                ..self@
            }),
    {
        let mut b = self;
        b.request.ident = Some(String::from_str(ident));
        b.request.auth = opt_owned(method);
        b.request.user = None;
        b
    }

    /// Sets the client's IPv4 address.
    pub fn client(self, client: [u8; 4]) -> (r: Builder)
        requires
            self@.wf(),
        ensures
            r@.wf(),
            r@ == (RequestView { client, ..self@ }),
    {
        let mut b = self;
        b.request.client = client;
        b
    }

    /// Sets the query string of the URL.
    pub fn query(self, query: &str) -> (r: Builder)
        requires
            self@.wf(),
        ensures
            r@.wf(),
            r@ == (RequestView {
                location: LocationView { query: Some(query@), ..self@.location },
                ..self@
            }),
    {
        let mut b = self;
        b.request.location.query = Some(String::from_str(query));
        b
    }
}

/// Whatever sequence of calls made a builder, the request it builds has a URL whose path
/// is the script followed by the path info, or the script alone where there is none.
pub proof fn lemma_built_url_path(b: Builder, r: Request)
    requires
        b@.wf(),
        r@ == b@,
    ensures
        r@.location.path == r@.script + chars_or_empty(r@.path_info),
{
}

/// A request never has both a user and an ident: setting one clears the other, and no
/// other call sets either.
pub proof fn lemma_user_ident_exclusive(b: Builder)
    requires
        b@.wf(),
    ensures
        !(b@.user is Some && b@.ident is Some),
{
}

/// Only a PUT or a POST carries content, whatever calls made the builder.
pub proof fn lemma_content_needs_put_or_post(b: Builder)
    requires
        b@.wf(),
    ensures
        b@.content is Some ==> b@.method == Method::Put || b@.method == Method::Post,
{
}

/// Whether every character of `s` is a decimal digit.
pub open spec fn all_digits(s: Seq<char>) -> bool {
    forall|i: int| 0 <= i < s.len() ==> '0' <= #[trigger] s[i] <= '9'
}

/// The value of the decimal digits `s`.
pub open spec fn digits_value(s: Seq<char>) -> int
    decreases s.len(),
{
    if s.len() == 0 {
        0
    } else {
        digits_value(s.drop_last()) * 10 + (s.last() as u32 - '0' as u32)
    }
}

/// A port number written as an optional `+` followed by decimal digits, where its value
/// fits in 16 bits.
pub open spec fn port_number(s: Seq<char>) -> Option<u16> {
    let t = if s.len() > 0 && s[0] == '+' {
        s.drop_first()
    } else {
        s
    };
    if t.len() > 0 && all_digits(t) && digits_value(t) <= 65535 {
        Some(digits_value(t) as u16)
    } else {
        None
    }
}

/// `x`, or 65536 where it is larger.
pub open spec fn capped(x: int) -> int {
    if x < 65536 {
        x
    } else {
        65536
    }
}

/// The value of decimal digits is never negative.
pub proof fn lemma_digits_value_nonneg(s: Seq<char>)
    requires
        all_digits(s),
    ensures
        digits_value(s) >= 0,
    decreases s.len(),
{
    if s.len() > 0 {
        assert(all_digits(s.drop_last())) by {
            assert forall|i: int| 0 <= i < s.drop_last().len() implies '0' <= #[trigger] s.drop_last()[i] <= '9' by {
                assert(s.drop_last()[i] == s[i]);
            }
        }
        lemma_digits_value_nonneg(s.drop_last());
        assert('0' <= s[s.len() - 1] <= '9');
    }
}

/// Reads a port number: an optional `+` followed by decimal digits whose value fits
/// in 16 bits.
pub fn parse_port(s: &str) -> (r: Option<u16>)
    ensures
        r == port_number(s@),
{
    let n = s.unicode_len();
    let mut start: usize = 0;
    if n > 0 && s.get_char(0) == '+' {
        start = 1;
    }
    let ghost t = s@.subrange(start as int, n as int);
    assert(t =~= if s@.len() > 0 && s@[0] == '+' {
        s@.drop_first()
    } else {
        s@
    });
    if start >= n {
        return None;
    }
    let mut value: u32 = 0;
    let mut i = start;
    assert(s@.subrange(start as int, i as int) =~= Seq::<char>::empty());
    while i < n
        invariant
            start <= i <= n,
            n == s@.len(),
            t == s@.subrange(start as int, n as int),
            t == if s@.len() > 0 && s@[0] == '+' {
                s@.drop_first()
            } else {
                s@
            },
            all_digits(s@.subrange(start as int, i as int)),
            value as int == capped(digits_value(s@.subrange(start as int, i as int))),
        decreases n - i,
    {
        let c = s.get_char(i);
        if !('0' <= c && c <= '9') {
            assert(t[i - start] == c);
            assert(!all_digits(t)) by {
                assert(!('0' <= t[i - start] <= '9'));
            }
            return None;
        }
        let ghost p = s@.subrange(start as int, i as int);
        let ghost q = s@.subrange(start as int, i + 1);
        assert(q.drop_last() =~= p);
        assert(q.last() == c);
        proof {
            lemma_digits_value_nonneg(p);
        }
        let d = (c as u32) - ('0' as u32);
        if value > 6553 || value * 10 + d > 65535 {
            value = 65536;
        } else {
            value = value * 10 + d;
        }
        i = i + 1;
        assert(all_digits(q)) by {
            assert forall|k: int| 0 <= k < q.len() implies '0' <= #[trigger] q[k] <= '9' by {
                if k < p.len() {
                    assert(q[k] == p[k]);
                }
            }
        }
    }
    if value > 65535 {
        None
    } else {
        Some(value as u16)
    }
}

/// The latch that lets the environment be read once: set by the first load and never
/// reset. One guard stands for the whole process.
pub struct LoadGuard {
    loaded: bool,
}

/// The latch after one attempt to load from state `loaded`, and whether the attempt
/// may read the environment: only the first may.
pub open spec fn after_load(loaded: bool) -> (bool, bool) {
    (true, !loaded)
}

impl View for LoadGuard {
    type V = bool;

    closed spec fn view(&self) -> bool {
        self.loaded
    }
}

impl LoadGuard {
    /// A latch that nothing has loaded through yet.
    pub fn new() -> (r: LoadGuard)
        ensures
            !r@,
    {
        LoadGuard { loaded: false }
    }

    /// Whether a load has gone through this latch.
    pub fn is_loaded(&self) -> (r: bool)
        ensures
            r == self@,
    {
        self.loaded
    }

    /// Sets the latch; fails with `MultipleLoad` where it was already set.
    pub fn acquire(&mut self) -> (r: Result<(), Error>)
        ensures
            final(self)@ == after_load(old(self)@).0,
            r is Ok <==> after_load(old(self)@).1,
            r matches Err(e) ==> e is MultipleLoad,
    {
        if self.loaded {
            Err(Error::MultipleLoad)
        } else {
            self.loaded = true;
            Ok(())
        }
    }
}

/// Two loads through one guard never both read the environment: after any first
/// attempt, a second fails.
pub proof fn lemma_second_load_fails(loaded: bool)
    ensures
        !after_load(after_load(loaded).0).1,
        after_load(after_load(loaded).0).0,
{
}

/// The CGI variables a request is loaded from, as the process found them.
pub struct CgiEnv {
    pub server_protocol: Option<String>,
    pub gateway_interface: Option<String>,
    pub request_method: Option<String>,
    pub server_name: Option<String>,
    pub server_port: Option<String>,
    pub script_name: Option<String>,
    pub path_info: Option<String>,
    pub path_translated: Option<String>,
    pub query_string: Option<String>,
    pub remote_user: Option<String>,
    pub remote_ident: Option<String>,
    pub auth_type: Option<String>,
    pub remote_addr: Option<[u8; 4]>,
    pub content_type: Option<String>,
}

impl CgiEnv {
    /// An environment with no variable set.
    pub fn empty() -> (r: CgiEnv)
        ensures
            r.server_protocol is None,
            r.gateway_interface is None,
            r.request_method is None,
            r.server_name is None,
            r.server_port is None,
            r.script_name is None,
            r.path_info is None,
            r.path_translated is None,
            r.query_string is None,
            r.remote_user is None,
            r.remote_ident is None,
            r.auth_type is None,
            r.remote_addr is None,
            r.content_type is None,
    {
        CgiEnv {
            server_protocol: None,
            gateway_interface: None,
            request_method: None,
            server_name: None,
            server_port: None,
            script_name: None,
            path_info: None,
            path_translated: None,
            query_string: None,
            remote_user: None,
            remote_ident: None,
            auth_type: None,
            remote_addr: None,
            content_type: None,
        }
    }

    /// The method `REQUEST_METHOD` names; GET where it names none.
    pub open spec fn method(self) -> Method {
        match opt_chars(self.request_method) {
            Some(n) => match Method::named(n) {
                Some(m) => m,
                None => Method::Get,
            },
            None => Method::Get,
        }
    }

    /// The media type `CONTENT_TYPE` declares; `application/octet-stream` where it
    /// declares none that parses.
    pub open spec fn media(self) -> MediaTypeView {
        let octet = MediaTypeView {
            top: "application"@,
            sub: "octet-stream"@,
            suffix: None,
            boundary: None,
        };
        match opt_chars(self.content_type) {
            Some(t) => match media_of(t) {
                Some(m) => m,
                None => octet,
            },
            None => octet,
        }
    }

    /// The URL components the variables give: `http`, `SERVER_NAME`, `SERVER_PORT`,
    /// the script path followed by the path info, and `QUERY_STRING`.
    pub open spec fn location(self) -> LocationView {
        LocationView {
            scheme: "http"@,
            host: opt_chars(self.server_name),
            port: self.port(),
            path: chars_or(opt_chars(self.script_name), Seq::empty()) + chars_or_empty(
                opt_chars(self.path_info),
            ),
            query: opt_chars(self.query_string),
        }
    }

    /// Whether `body` decodes as the content of this request: only a PUT or POST has
    /// content to decode.
    pub open spec fn content_decodes(self, body: Seq<u8>) -> bool {
        self.method().carries_content() ==> classifiable(self.media(), body)
    }

    /// The port `SERVER_PORT` gives, where it is a number.
    pub open spec fn port(self) -> Option<u16> {
        match opt_chars(self.server_port) {
            Some(p) => port_number(p),
            None => None,
        }
    }
}

/// The text of `o`, or `d` where it is absent.
pub open spec fn chars_or(o: Option<Seq<char>>, d: Seq<char>) -> Seq<char> {
    match o {
        Some(s) => s,
        None => d,
    }
}

fn text_or(o: &Option<String>, d: &str) -> (r: String)
    ensures
        r@ == chars_or(opt_chars(*o), d@),
{
    match o {
        Some(s) => String::from_str(s.as_str()),
        None => String::from_str(d),
    }
}

impl Request {
    /// Loads the request from the CGI variables `env` and the request body `body`,
    /// once per guard. Defaults stand in for absent variables: HTTP/1.0, CGI/1.1, GET,
    /// an empty script path, the loopback address. A PUT or POST carries `body`
    /// decoded by `CONTENT_TYPE`; other methods carry nothing. Of a user and an ident,
    /// the user is kept. Where the variables form no URL, the URL parser's error is
    /// returned.
    pub fn load(guard: &mut LoadGuard, env: &CgiEnv, body: Vec<u8>) -> (r: Result<Request, Error>)
        ensures
            final(guard)@,
            r is Ok <==> !old(guard)@ && env.content_decodes(body@) && url_text(
                env.location().text(),
            ) is Some,
            r matches Err(e) ==> (e is MultipleLoad <==> old(guard)@),
            r matches Err(e) ==> (e is MultipartBoundaryMissing <==> !old(guard)@
                && !env.content_decodes(body@)),
            r matches Err(e) ==> (e is UrlParse <==> !old(guard)@ && env.content_decodes(body@)
                && url_text(env.location().text()) is None),
            r matches Ok(req) ==> {
                &&& req@.wf()
                &&& req@.http_version == chars_or(opt_chars(env.server_protocol), "HTTP/1.0"@)
                &&& req@.cgi_version == chars_or(opt_chars(env.gateway_interface), "CGI/1.1"@)
                &&& req@.method == env.method()
                &&& req@.location == env.location()
                &&& url_text(req@.location.text()) is Some
                &&& req@.script == chars_or(opt_chars(env.script_name), Seq::empty())
                &&& req@.path_info == opt_chars(env.path_info)
                &&& req@.path_translated == opt_chars(env.path_translated)
                &&& req@.user == opt_chars(env.remote_user)
                &&& req@.ident == if env.remote_user is Some {
                    None
                } else {
                    opt_chars(env.remote_ident)
                }
                &&& req@.auth == opt_chars(env.auth_type)
                &&& req@.client == match env.remote_addr {
                    Some(a) => a,
                    None => [127u8, 0u8, 0u8, 1u8],
                }
                &&& (req@.content is Some <==> env.method().carries_content())
                &&& (req@.content matches Some(c) ==> c.media@ == env.media() && classifies(
                    env.media(),
                    body@,
                    c.data,
                ))
            },
    {
        match guard.acquire() {
            Ok(()) => {},
            Err(e) => {
                return Err(e);
            },
        }
        proof {
            reveal_strlit("HTTP/1.0");
            reveal_strlit("CGI/1.1");
            reveal_strlit("http");
            reveal_strlit("");
        }
        let method = match &env.request_method {
            Some(n) => match Method::from_name(n.as_str()) {
                Some(m) => m,
                None => Method::Get,
            },
            None => Method::Get,
        };
        let content = if method == Method::Put || method == Method::Post {
            let media = match &env.content_type {
                Some(t) => match MediaType::parse(t.as_str()) {
                    Some(m) => m,
                    None => MediaType::octet_stream(),
                },
                None => MediaType::octet_stream(),
            };
            match Content::classify(media, body) {
                Ok(c) => Some(c),
                Err(e) => {
                    return Err(e);
                },
            }
        } else {
            None
        };
        let port = match &env.server_port {
            Some(p) => parse_port(p.as_str()),
            None => None,
        };
        let ident = match &env.remote_user {
            Some(_) => None,
            None => copy_opt(&env.remote_ident),
        };
        let mut req = Request {
            http_version: text_or(&env.server_protocol, "HTTP/1.0"),
            cgi_version: text_or(&env.gateway_interface, "CGI/1.1"),
            method,
            location: Location {
                scheme: String::from_str("http"),
                host: copy_opt(&env.server_name),
                port,
                path: String::new(),
                query: copy_opt(&env.query_string),
            },
            path_info: copy_opt(&env.path_info),
            path_translated: copy_opt(&env.path_translated),
            script: text_or(&env.script_name, ""),
            user: copy_opt(&env.remote_user),
            ident,
            auth: copy_opt(&env.auth_type),
            client: match env.remote_addr {
                Some(a) => a,
                None => [127u8, 0u8, 0u8, 1u8],
            },
            content,
        };
        req.update_path();
        match req.location.parse() {
            Ok(_) => Ok(req),
            Err(e) => Err(Error::from(e)),
        }
    }
}

} // verus!
