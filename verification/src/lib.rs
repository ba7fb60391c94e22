//! A small HTTP request dispatcher: a route table with path parameters, a
//! two-phase request-line parser, and the decision an accept loop takes for
//! each connection.

pub mod app;
pub mod http;
pub mod server;
pub mod text;
