//! A minimal HTTP/1.1 request/response core: request-line and header
//! parsing, route dispatch, and response serialization, all verified.
//! Socket and filesystem work is left to the surrounding program, which
//! feeds lines in and carries the chosen action out.

pub mod handler;
pub mod laws;
pub mod message;
pub mod strutil;
