//! A minimal static-file server core: request routing against a fixed
//! allow-list, MIME classification by file extension, and response
//! construction, all with verified contracts. The I/O shell (listening
//! socket, filesystem reads) lives outside this crate and hands in plain
//! values.

pub mod mime;
pub mod query;
pub mod response;
pub mod routes;
pub mod text;
