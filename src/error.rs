//! Errors of CGI handling and testing.

use vstd::prelude::*;

verus! {

#[verifier::external_type_specification]
#[verifier::external_body]
pub struct ExParseError(url::ParseError);

/// Results involving errors related to CGI handling and testing.
pub type CgiResult<T> = Result<T, Error>;

/// Errors related to handling and testing CGI.
#[derive(Debug)]
pub enum Error {
    /// There were multiple attempts made to load the request.
    MultipleLoad,
    /// The request's fields could not form a legitimate URL.
    UrlParse(url::ParseError),
    /// A multipart body was declared without a boundary to split it on.
    MultipartBoundaryMissing,
}

impl Error {
    /// A sentence describing the error.
    pub fn description(&self) -> (r: &'static str)
        ensures
            self is MultipleLoad ==> r@ == "Multiple attempts were made to load the request."@,
            self is UrlParse ==> r@ == "Tried to make the URL invalid."@,
            self is MultipartBoundaryMissing ==> r@
                == "A multipart body was declared without a boundary."@,
    {
        proof {
            reveal_strlit("Multiple attempts were made to load the request.");
            reveal_strlit("Tried to make the URL invalid.");
            reveal_strlit("A multipart body was declared without a boundary.");
        }
        match self {
            Error::MultipleLoad => "Multiple attempts were made to load the request.",
            Error::UrlParse(_) => "Tried to make the URL invalid.",
            Error::MultipartBoundaryMissing => "A multipart body was declared without a boundary.",
        }
    }
}

impl From<url::ParseError> for Error {
    fn from(err: url::ParseError) -> (r: Error) {
        Error::UrlParse(err)
    }
}

impl vstd::std_specs::convert::FromSpecImpl<url::ParseError> for Error {
    open spec fn obeys_from_spec() -> bool {
        true
    }

    open spec fn from_spec(err: url::ParseError) -> Error {
        Error::UrlParse(err)
    }
}

} // verus!
