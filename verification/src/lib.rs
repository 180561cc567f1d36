//! A small HTTP/1.1 client core: a validated request builder and an exact,
//! byte-level serializer for the wire form of a request.

pub mod headers;
pub mod request;
