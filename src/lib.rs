//! A typed view of one CGI invocation: the request's fields, the URL they
//! compose, and the request body decoded by its declared media type.

pub mod content;
pub mod error;
pub mod framing;
pub mod location;
pub mod method;
pub mod request;
pub mod scan;

pub use content::{Content, Data, Kind, MediaType, MediaTypeView};
pub use error::{CgiResult, Error};
pub use location::{Location, LocationView};
pub use method::Method;
pub use request::{Builder, CgiEnv, LoadGuard, Request, RequestView};
