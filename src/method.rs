//! The request method.

use vstd::prelude::*;

verus! {

/// The HTTP method of a request (`REQUEST_METHOD`).
#[derive(PartialEq, Eq, Structural, Clone, Copy, Debug)]
pub enum Method {
    Options,
    Get,
    Head,
    Post,
    Put,
    Delete,
    Trace,
    Connect,
}

impl Method {
    /// Whether a request with this method may carry content.
    pub open spec fn carries_content(self) -> bool {
        self == Method::Put || self == Method::Post
    }

    /// The method named by `name`, in upper case as CGI passes it.
    pub open spec fn named(name: Seq<char>) -> Option<Method> {
        if name == "OPTIONS"@ {
            Some(Method::Options)
        } else if name == "GET"@ {
            Some(Method::Get)
        } else if name == "HEAD"@ {
            Some(Method::Head)
        } else if name == "POST"@ {
            Some(Method::Post)
        } else if name == "PUT"@ {
            Some(Method::Put)
        } else if name == "DELETE"@ {
            Some(Method::Delete)
        } else if name == "TRACE"@ {
            Some(Method::Trace)
        } else if name == "CONNECT"@ {
            Some(Method::Connect)
        } else {
            None
        }
    }

    /// Reads a method name as CGI passes it in `REQUEST_METHOD`.
    pub fn from_name(name: &str) -> (r: Option<Method>)
        ensures
            r == Method::named(name@),
    {
        proof {
            reveal_strlit("OPTIONS");
            reveal_strlit("GET");
            reveal_strlit("HEAD");
            reveal_strlit("POST");
            reveal_strlit("PUT");
            reveal_strlit("DELETE");
            reveal_strlit("TRACE");
            reveal_strlit("CONNECT");
        }
        if str_eq(name, "OPTIONS") {
            Some(Method::Options)
        } else if str_eq(name, "GET") {
            Some(Method::Get)
        } else if str_eq(name, "HEAD") {
            Some(Method::Head)
        } else if str_eq(name, "POST") {
            Some(Method::Post)
        } else if str_eq(name, "PUT") {
            Some(Method::Put)
        } else if str_eq(name, "DELETE") {
            Some(Method::Delete)
        } else if str_eq(name, "TRACE") {
            Some(Method::Trace)
        } else if str_eq(name, "CONNECT") {
            Some(Method::Connect)
        } else {
            None
        }
    }
}

/// Whether two strings hold the same characters.
pub fn str_eq(a: &str, b: &str) -> (r: bool)
    ensures
        r == (a@ == b@),
{
    let x = a.to_owned();
    let y = b.to_owned();
    x == y
}

} // verus!
