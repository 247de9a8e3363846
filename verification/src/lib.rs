//! The protocol layer of a small HTTP/1.1 server: decoding a request from
//! the bytes of one read, routing it, and encoding the response as wire bytes.
//!
//! Nothing here touches a socket or a file. Where a request needs the file
//! system, [`router::process_request`] says which file is to be read or
//! written, and the caller reports back what happened.
pub mod config;
pub mod headers;
pub mod laws;
pub mod request;
pub mod response;
pub mod router;
pub mod text;
pub mod wire;
