//! A minimal HTTP/1.1 request pipeline: a byte-level request parser, a
//! router over a fixed set of routes (greeting, echo with negotiated gzip
//! compression, user-agent reflection, file read/write), response assembly
//! with exact Content-Length accounting, and the decision core of a
//! fixed-size worker pool.
//!
//! Everything that computes — parsing, header lookup, content negotiation,
//! routing, response serialization — lives here and is verified. Socket and
//! file I/O stay with the caller, which feeds byte buffers in and writes the
//! assembled response bytes out.

pub mod bytes;
pub mod decimal;
pub mod gzip;
pub mod handler;
pub mod headers;
pub mod literals;
pub mod parsing;
pub mod pool;
pub mod response;
