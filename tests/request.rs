use cgi::{Builder, CgiEnv, Content, Data, Error, LoadGuard, MediaType, Method, Request};
use cgi::request::parse_port;

fn json_content() -> Content {
    Content::classify(MediaType::parse("application/json").unwrap(), b"{}".to_vec()).unwrap()
}

#[test]
fn build_url() {
    let request = Builder::new("/usr/lib/cgi-bin/test.cgi")
        .host("jabberwocky")
        .port(81)
        .script("/test.cgi")
        .path_info("/var/www/html", "/some/info")
        .query("choice=12")
        .build();

    assert_eq!("http://jabberwocky:81/test.cgi/some/info?choice=12", request.url().unwrap());
}

#[test]
fn build_url_path_info_before_script() {
    let request = Builder::new("/seed.cgi")
        .path_info("/var/www/html", "/some/info")
        .script("/test.cgi")
        .build();
    assert_eq!(request.location().path, "/test.cgi/some/info");
    assert_eq!(request.path_translated(), Some("/var/www/html/some/info"));
    assert_eq!(request.path_info(), Some("/some/info"));
}

#[test]
fn default_builder_is_a_file_url() {
    let request = Builder::new("/srv/app.cgi").build();
    assert_eq!(request.url().unwrap(), "file:///srv/app.cgi");
    assert_eq!(request.http_version(), "HTTP/1.0");
    assert_eq!(request.cgi_version(), "CGI/1.1");
    assert!(request.method() == Method::Get);
    assert_eq!(request.client(), [127, 0, 0, 1]);
    assert_eq!(request.script(), "/srv/app.cgi");
    assert!(request.content().is_none());
}

#[test]
fn default_port_is_left_out_of_the_url() {
    let request = Builder::new("/x.cgi").host("example.org").port(80).build();
    assert_eq!(request.url().unwrap(), "http://example.org/x.cgi");
}

#[test]
fn url_without_host_is_an_error() {
    let request = Builder::new("/x.cgi").port(81).build();
    assert!(matches!(request.url(), Err(Error::UrlParse(_))));
}

#[test]
fn versions_and_client_are_set() {
    let request = Builder::new("/x.cgi")
        .http_version("HTTP/1.1")
        .cgi_version("CGI/1.2")
        .client([10, 0, 0, 7])
        .build();
    assert_eq!(request.http_version(), "HTTP/1.1");
    assert_eq!(request.cgi_version(), "CGI/1.2");
    assert_eq!(request.client(), [10, 0, 0, 7]);
}

#[test]
fn method_other_than_put_or_post_clears_content() {
    let request = Builder::new("/x.cgi").post(Some(json_content())).method(Method::Delete).build();
    assert!(request.method() == Method::Delete);
    assert!(request.content().is_none());
}

#[test]
fn method_put_keeps_content() {
    let request = Builder::new("/x.cgi").post(Some(json_content())).method(Method::Put).build();
    assert!(request.method() == Method::Put);
    assert!(request.content().is_some());
}

#[test]
fn get_clears_content() {
    let request = Builder::new("/x.cgi").put(Some(json_content())).get().build();
    assert!(request.method() == Method::Get);
    assert!(request.content().is_none());
}

#[test]
fn user_clears_ident_and_ident_clears_user() {
    let request = Builder::new("/x.cgi").ident("id7", None).user("alice", Some("Basic")).build();
    assert_eq!(request.user(), Some("alice"));
    assert_eq!(request.ident(), None);
    assert_eq!(request.auth(), Some("Basic"));
    let request = Builder::new("/x.cgi").user("alice", Some("Basic")).ident("id7", None).build();
    assert_eq!(request.user(), None);
    assert_eq!(request.ident(), Some("id7"));
    assert_eq!(request.auth(), None);
}

#[test]
fn second_load_fails() {
    let mut guard = LoadGuard::new();
    let env = CgiEnv { server_name: Some("localhost".to_string()), ..CgiEnv::empty() };
    assert!(Request::load(&mut guard, &env, Vec::new()).is_ok());
    assert!(matches!(Request::load(&mut guard, &env, Vec::new()), Err(Error::MultipleLoad)));
    assert!(matches!(Request::load(&mut guard, &env, Vec::new()), Err(Error::MultipleLoad)));
}

#[test]
fn load_reads_the_environment() {
    let mut guard = LoadGuard::new();
    let env = CgiEnv {
        server_protocol: Some("HTTP/1.1".to_string()),
        request_method: Some("POST".to_string()),
        server_name: Some("example.org".to_string()),
        server_port: Some("8080".to_string()),
        script_name: Some("/cgi-bin/app".to_string()),
        path_info: Some("/extra".to_string()),
        query_string: Some("x=1".to_string()),
        remote_user: Some("alice".to_string()),
        remote_ident: Some("id7".to_string()),
        remote_addr: Some([192, 168, 1, 2]),
        content_type: Some("application/json".to_string()),
        ..CgiEnv::empty()
    };
    let request = Request::load(&mut guard, &env, b"[1]".to_vec()).unwrap();
    assert_eq!(request.url().unwrap(), "http://example.org:8080/cgi-bin/app/extra?x=1");
    assert_eq!(request.http_version(), "HTTP/1.1");
    assert_eq!(request.cgi_version(), "CGI/1.1");
    assert!(request.method() == Method::Post);
    assert_eq!(request.user(), Some("alice"));
    assert_eq!(request.ident(), None);
    assert_eq!(request.client(), [192, 168, 1, 2]);
    match &request.content().unwrap().data {
        Data::Json(s) => assert_eq!(s, "[1]"),
        other => panic!("unexpected {:?}", other),
    }
}

#[test]
fn load_get_ignores_body() {
    let mut guard = LoadGuard::new();
    let env = CgiEnv {
        request_method: Some("GET".to_string()),
        server_name: Some("localhost".to_string()),
        ..CgiEnv::empty()
    };
    let request = Request::load(&mut guard, &env, b"ignored".to_vec()).unwrap();
    assert!(request.content().is_none());
}

#[test]
fn load_multipart_without_boundary_fails() {
    let mut guard = LoadGuard::new();
    let env = CgiEnv {
        request_method: Some("PUT".to_string()),
        content_type: Some("multipart/form-data".to_string()),
        ..CgiEnv::empty()
    };
    let r = Request::load(&mut guard, &env, b"x".to_vec());
    assert!(matches!(r, Err(Error::MultipartBoundaryMissing)));
}

#[test]
fn method_names() {
    assert!(Method::from_name("OPTIONS") == Some(Method::Options));
    assert!(Method::from_name("CONNECT") == Some(Method::Connect));
    assert!(Method::from_name("get").is_none());
}

#[test]
fn error_descriptions() {
    assert_eq!(Error::MultipleLoad.description(), "Multiple attempts were made to load the request.");
    assert_eq!(
        Error::MultipartBoundaryMissing.description(),
        "A multipart body was declared without a boundary."
    );
}

#[test]
fn load_reads_the_port() {
    let port_of = |p: &str| {
        let mut guard = LoadGuard::new();
        let env = CgiEnv {
            server_name: Some("localhost".to_string()),
            server_port: Some(p.to_string()),
            ..CgiEnv::empty()
        };
        Request::load(&mut guard, &env, Vec::new()).unwrap().location().port
    };
    assert_eq!(port_of("8080"), Some(8080));
    assert_eq!(port_of("+81"), Some(81));
    assert_eq!(port_of("65535"), Some(65535));
    assert_eq!(port_of("65536"), None);
    assert_eq!(port_of("8a"), None);
    assert_eq!(port_of(""), None);
}

#[test]
fn load_defaults() {
    let mut guard = LoadGuard::new();
    let env = CgiEnv { server_name: Some("localhost".to_string()), ..CgiEnv::empty() };
    let request = Request::load(&mut guard, &env, Vec::new()).unwrap();
    assert_eq!(request.url().unwrap(), "http://localhost/");
    assert_eq!(request.http_version(), "HTTP/1.0");
    assert_eq!(request.cgi_version(), "CGI/1.1");
    assert!(request.method() == Method::Get);
    assert_eq!(request.script(), "");
    assert_eq!(request.client(), [127, 0, 0, 1]);
    assert_eq!(request.location().scheme, "http");
    assert!(guard.is_loaded());
}

#[test]
fn load_without_host_is_a_url_error() {
    let mut guard = LoadGuard::new();
    let r = Request::load(&mut guard, &CgiEnv::empty(), Vec::new());
    assert!(matches!(r, Err(Error::UrlParse(_))));
    assert!(guard.is_loaded());
}

#[test]
fn load_bad_host_is_a_url_error() {
    let mut guard = LoadGuard::new();
    let env = CgiEnv {
        server_name: Some("exa mple.org".to_string()),
        ..CgiEnv::empty()
    };
    assert!(matches!(Request::load(&mut guard, &env, Vec::new()), Err(Error::UrlParse(_))));
}

#[test]
fn multipart_header_name_in_any_case_at_line_start() {
    let mut guard = LoadGuard::new();
    let env = CgiEnv {
        request_method: Some("POST".to_string()),
        server_name: Some("localhost".to_string()),
        content_type: Some("multipart/form-data; boundary=bd".to_string()),
        ..CgiEnv::empty()
    };
    let body = b"--bd\r\nX-Note: Content-Type: image/png\r\ncontent-TYPE: application/json\r\n\r\n{}\r\n--bd--".to_vec();
    let request = Request::load(&mut guard, &env, body).unwrap();
    match &request.content().unwrap().data {
        Data::Multipart(parts) => {
            assert_eq!(parts.len(), 1);
            match &parts[0] {
                Data::Json(s) => assert_eq!(s, "{}"),
                other => panic!("unexpected {:?}", other),
            }
        },
        other => panic!("unexpected {:?}", other),
    }
}

#[test]
fn url_keeps_its_structure() {
    let request = Builder::new("/seed.cgi")
        .host("h")
        .port(81)
        .script("app.cgi")
        .path_info("/base", "/a?b#c")
        .query("x=1#y")
        .build();
    assert_eq!(request.url().unwrap(), "http://h:81/app.cgi/a%3Fb%23c?x=1%23y");
    assert_eq!(request.location().path, "app.cgi/a?b#c");
}

#[test]
fn port_text() {
    assert_eq!(parse_port("81"), Some(81));
    assert_eq!(parse_port("+0"), Some(0));
    assert_eq!(parse_port("0065535"), Some(65535));
    assert_eq!(parse_port("99999999999"), None);
    assert_eq!(parse_port("+"), None);
    assert_eq!(parse_port("-1"), None);
    assert_eq!(parse_port(" 1"), None);
}

fn post_multipart(body: &[u8]) -> Request {
    let mut guard = LoadGuard::new();
    let env = CgiEnv {
        request_method: Some("POST".to_string()),
        server_name: Some("localhost".to_string()),
        content_type: Some("multipart/mixed; boundary=bd".to_string()),
        ..CgiEnv::empty()
    };
    Request::load(&mut guard, &env, body.to_vec()).unwrap()
}

#[test]
fn load_multipart_round_trip() {
    let request = post_multipart(
        b"--bd\r\nContent-Type: text/plain\r\n\r\none\r\n--bd\r\nContent-Type: application/json\r\n\r\n[2]\r\n--bd\r\nContent-Type: image/png\r\n\r\n\x03\r\n--bd--",
    );
    match &request.content().unwrap().data {
        Data::Multipart(parts) => {
            assert_eq!(parts.len(), 3);
            assert!(matches!(&parts[0], Data::Text(s) if s == "one"));
            assert!(matches!(&parts[1], Data::Json(s) if s == "[2]"));
            assert!(matches!(&parts[2], Data::Blob(b) if b == &vec![3u8]));
        },
        other => panic!("unexpected {:?}", other),
    }
}

#[test]
fn load_multipart_with_no_parts() {
    let request = post_multipart(b"--bd--");
    assert!(matches!(&request.content().unwrap().data, Data::Multipart(p) if p.is_empty()));
}
