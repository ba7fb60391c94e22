//! The HTTP side: methods, headers, parameters, requests and responses.

pub mod http_header;
pub mod http_method;
pub mod request;
pub mod request_param;
pub mod response;
