//! The request methods that the server recognises.

use vstd::prelude::*;

use crate::http::request::RequestParsingError;
use crate::text::same_text;

verus! {

/// A request method.
#[derive(Debug, Clone, Copy, PartialEq, Eq, Hash, Structural)]
pub enum HttpMethod {
    Get,
    Post,
    Put,
    Patch,
    Delete,
}

/// The method that a token names, if it names one. Tokens are case
/// sensitive.
pub open spec fn method_of(token: Seq<char>) -> Option<HttpMethod> {
    if token == "GET"@ {
        Some(HttpMethod::Get)
    } else if token == "POST"@ {
        Some(HttpMethod::Post)
    } else if token == "PUT"@ {
        Some(HttpMethod::Put)
    } else if token == "PATCH"@ {
        Some(HttpMethod::Patch)
    } else if token == "DELETE"@ {
        Some(HttpMethod::Delete)
    } else {
        None
    }
}

impl<'a> TryFrom<&'a str> for HttpMethod {
    type Error = RequestParsingError;

    /// The method named by `value`, or `InvalidHttpMethod`.
    fn try_from(value: &'a str) -> (r: Result<Self, Self::Error>)
        ensures
            r == match method_of(value@) {
                Some(m) => Ok::<HttpMethod, RequestParsingError>(m),
                None => Err(RequestParsingError::InvalidHttpMethod),
            },
    {
        if same_text(value, "GET") {
            Ok(HttpMethod::Get)
        } else if same_text(value, "POST") {
            Ok(HttpMethod::Post)
        } else if same_text(value, "PUT") {
            Ok(HttpMethod::Put)
        } else if same_text(value, "PATCH") {
            Ok(HttpMethod::Patch)
        } else if same_text(value, "DELETE") {
            Ok(HttpMethod::Delete)
        } else {
            Err(RequestParsingError::InvalidHttpMethod)
        }
    }
}

impl<'a> vstd::std_specs::convert::TryFromSpecImpl<&'a str> for HttpMethod {
    open spec fn obeys_try_from_spec() -> bool {
        true
    }

    open spec fn try_from_spec(value: &'a str) -> Result<Self, Self::Error> {
        match method_of(value@) {
            Some(m) => Ok(m),
            None => Err(RequestParsingError::InvalidHttpMethod),
        }
    }
}

} // verus!
