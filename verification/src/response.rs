//! Response construction. The caller resolves the request, consults the
//! filesystem itself, and hands in a `FileOutcome`; `serve` turns the
//! permission verdict and that outcome into the one response the client
//! may observe: 200 with the file bytes, 404, or 500.

use vstd::prelude::*;
use vstd::string::{StrSliceExecFns, StringExecFns};
use vstd::utf8::encode_utf8;

use crate::mime::{get_mime_type, mime_of};
use crate::routes::{
    allow_list, lemma_allowlisted_permitted, resolve_spec, strip_leading_slash, strip_query,
};

verus! {

/// What the filesystem gave for a resolved target path.
pub enum FileOutcome {
    /// No file at the path, or not a regular file.
    Missing,
    /// The file's complete contents, read into memory.
    Contents(Vec<u8>),
    /// The file passed the existence check, but reading its bytes failed.
    ReadFailed,
}

/// One complete HTTP response: status code, body bytes, and the
/// Content-Type header, which only success responses carry.
pub struct HttpResponse {
    pub status: u16,
    pub body: Vec<u8>,
    pub content_type: Option<String>,
}

/// A success response: status 200, the exact file bytes as body, and the
/// Content-Type classified from the served path.
pub open spec fn is_ok_response(r: HttpResponse, bytes: Seq<u8>, path: Seq<char>) -> bool {
    &&& r.status == 200
    &&& r.body@ == bytes
    &&& match r.content_type {
        Some(ct) => ct@ == mime_of(path),
        None => false,
    }
}

/// The not-found response: status 404 with its fixed textual body.
pub open spec fn is_not_found_response(r: HttpResponse) -> bool {
    &&& r.status == 404
    &&& r.body@ == encode_utf8("404 Not Found"@)
    &&& r.content_type is None
}

/// The read-failure response: status 500 with its fixed textual body.
pub open spec fn is_server_error_response(r: HttpResponse) -> bool {
    &&& r.status == 500
    &&& r.body@ == encode_utf8("500 Internal Server Error"@)
    &&& r.content_type is None
}

fn not_found_response() -> (r: HttpResponse)
    ensures
        is_not_found_response(r),
{
    HttpResponse { status: 404, body: "404 Not Found".as_bytes_vec(), content_type: None }
}

fn server_error_response() -> (r: HttpResponse)
    ensures
        is_server_error_response(r),
{
    HttpResponse {
        status: 500,
        body: "500 Internal Server Error".as_bytes_vec(),
        content_type: None,
    }
}

/// The one response a request may be answered with: 404 unless permitted
/// and present, 500 when a permitted, present file could not be read, and
/// otherwise 200 carrying the file bytes and the Content-Type for `path`.
pub open spec fn serve_post(
    permitted: bool,
    path: Seq<char>,
    outcome: FileOutcome,
    r: HttpResponse,
) -> bool {
    if permitted {
        match outcome {
            FileOutcome::Missing => is_not_found_response(r),
            FileOutcome::Contents(bytes) => is_ok_response(r, bytes@, path),
            FileOutcome::ReadFailed => is_server_error_response(r),
        }
    } else {
        is_not_found_response(r)
    }
}

/// The response for one resolved request.
pub fn serve(permitted: bool, file_path: &str, outcome: FileOutcome) -> (r: HttpResponse)
    ensures
        serve_post(permitted, file_path@, outcome, r),
{
    if !permitted {
        return not_found_response();
    }
    match outcome {
        FileOutcome::Missing => not_found_response(),
        FileOutcome::ReadFailed => server_error_response(),
        FileOutcome::Contents(bytes) => {
            let mime = get_mime_type(file_path);
            HttpResponse { status: 200, body: bytes, content_type: Some(String::from_str(mime)) }
        },
    }
}

/// An allow-listed request whose file was read in full is answered with
/// status 200 and the exact bytes of that file.
pub proof fn lemma_allowlisted_file_served(
    base: Seq<char>,
    url: Seq<char>,
    bytes: Seq<u8>,
    outcome: FileOutcome,
    r: HttpResponse,
)
    requires
        allow_list().contains(strip_leading_slash(strip_query(url))),
        match outcome {
            FileOutcome::Contents(b) => b@ == bytes,
            _ => false,
        },
        serve_post(resolve_spec(base, url).1, resolve_spec(base, url).0, outcome, r),
    ensures
        r.status == 200,
        r.body@ == bytes,
{
    lemma_allowlisted_permitted(base, url);
}

/// An allow-listed request with no regular file on disk is answered with
/// status 404.
pub proof fn lemma_allowlisted_missing_not_found(
    base: Seq<char>,
    url: Seq<char>,
    outcome: FileOutcome,
    r: HttpResponse,
)
    requires
        allow_list().contains(strip_leading_slash(strip_query(url))),
        outcome is Missing,
        serve_post(resolve_spec(base, url).1, resolve_spec(base, url).0, outcome, r),
    ensures
        r.status == 404,
        r.body@ == encode_utf8("404 Not Found"@),
{
    lemma_allowlisted_permitted(base, url);
}

} // verus!
