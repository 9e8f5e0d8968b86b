//! MIME classification: the file extension of a path and the fixed table
//! from extension to Content-Type. Unknown or missing extensions fall back
//! to `application/octet-stream`.

use vstd::prelude::*;
use vstd::string::StrSliceExecFns;

use crate::text::{find_last, find_last_in, lemma_find_last, str_eq};

verus! {

/// The extension of the final path component: the part after its last dot,
/// provided that dot is not the component's first character (so a dotfile
/// such as `.gitignore` has no extension).
pub open spec fn extension_of(path: Seq<char>) -> Option<Seq<char>> {
    let name = match find_last(path, '/') {
        None => path,
        Some(i) => path.subrange(i + 1, path.len() as int),
    };
    match find_last(name, '.') {
        None => None,
        Some(j) => if j > 0 {
            Some(name.subrange(j + 1, name.len() as int))
        } else {
            None
        },
    }
}

/// The fixed Content-Type table, keyed by lowercase extension.
pub open spec fn mime_for_extension(ext: Seq<char>) -> Seq<char> {
    if ext == "html"@ {
        "text/html"@
    } else if ext == "css"@ {
        "text/css"@
    } else if ext == "js"@ {
        "application/javascript"@
    } else if ext == "json"@ {
        "application/json"@
    } else if ext == "wasm"@ {
        "application/wasm"@
    } else if ext == "png"@ {
        "image/png"@
    } else if ext == "jpg"@ || ext == "jpeg"@ {
        "image/jpeg"@
    } else if ext == "gif"@ {
        "image/gif"@
    } else if ext == "svg"@ {
        "image/svg+xml"@
    } else {
        "application/octet-stream"@
    }
}

/// The Content-Type served for a path: the table entry for its extension,
/// or the binary fallback when it has none.
pub open spec fn mime_of(path: Seq<char>) -> Seq<char> {
    match extension_of(path) {
        None => "application/octet-stream"@,
        Some(e) => mime_for_extension(e),
    }
}

/// The Content-Type depends on nothing but the extension: paths with equal
/// extensions are classified alike, so classification is idempotent.
pub proof fn lemma_mime_from_extension_only(p1: Seq<char>, p2: Seq<char>)
    requires
        extension_of(p1) == extension_of(p2),
    ensures
        mime_of(p1) == mime_of(p2),
{
}

/// The table entry for an extension, or the binary fallback.
fn mime_from_extension(ext: &str) -> (r: &'static str)
    ensures
        r@ == mime_for_extension(ext@),
{
    if str_eq(ext, "html") {
        "text/html"
    } else if str_eq(ext, "css") {
        "text/css"
    } else if str_eq(ext, "js") {
        "application/javascript"
    } else if str_eq(ext, "json") {
        "application/json"
    } else if str_eq(ext, "wasm") {
        "application/wasm"
    } else if str_eq(ext, "png") {
        "image/png"
    } else if str_eq(ext, "jpg") {
        "image/jpeg"
    } else if str_eq(ext, "jpeg") {
        "image/jpeg"
    } else if str_eq(ext, "gif") {
        "image/gif"
    } else if str_eq(ext, "svg") {
        "image/svg+xml"
    } else {
        "application/octet-stream"
    }
}

/// The Content-Type for `file_path`, classified by its extension.
pub fn get_mime_type(file_path: &str) -> (r: &'static str)
    ensures
        r@ == mime_of(file_path@),
{
    let n = file_path.unicode_len();
    let name = match find_last_in(file_path, '/') {
        None => file_path,
        Some(i) => {
            proof {
                lemma_find_last(file_path@, '/');
            }
            file_path.substring_char(i + 1, n)
        },
    };
    let nn = name.unicode_len();
    match find_last_in(name, '.') {
        None => "application/octet-stream",
        Some(j) => {
            proof {
                lemma_find_last(name@, '.');
            }
            if j == 0 {
                "application/octet-stream"
            } else {
                let ext = name.substring_char(j + 1, nn);
                mime_from_extension(ext)
            }
        },
    }
}

} // verus!
