//! Request routing: strip the query string, special-case the root path,
//! join the remainder under the base directory, and decide permission by
//! exact byte-for-byte membership in the fixed allow-list. No normalization
//! of `..` or symbolic links happens here; exact membership is the sole
//! defense against traversal, since no traversal-producing string is listed.
//! Paths are compared exactly as the transport hands them over, with no
//! percent-decoding before the comparison, so an encoded traversal sequence
//! is nothing more than an unlisted path.

use vstd::prelude::*;
use vstd::string::{StrSliceExecFns, StringExecFns};

use crate::text::{
    find_char, find_char_in, lemma_find_char, lemma_find_char_at, lemma_find_char_none, str_eq,
};

verus! {

/// Every relative path the server may serve besides the root document.
pub open spec fn allow_list() -> Seq<Seq<char>> {
    seq![
        "index.html"@,
        "new-api/pkg/new_api_bg.wasm"@,
        "new-api/pkg/new_api_bg.wasm.d.ts"@,
        "new-api/pkg/new_api.d.ts"@,
        "new-api/pkg/new_api.js"@,
    ]
}

/// Whether `path` is byte-for-byte one of the allow-list entries.
pub fn is_served_path(path: &str) -> (r: bool)
    ensures
        r == allow_list().contains(path@),
{
    if str_eq(path, "index.html") {
        proof {
            assert(allow_list()[0] == path@);
        }
        true
    } else if str_eq(path, "new-api/pkg/new_api_bg.wasm") {
        proof {
            assert(allow_list()[1] == path@);
        }
        true
    } else if str_eq(path, "new-api/pkg/new_api_bg.wasm.d.ts") {
        proof {
            assert(allow_list()[2] == path@);
        }
        true
    } else if str_eq(path, "new-api/pkg/new_api.d.ts") {
        proof {
            assert(allow_list()[3] == path@);
        }
        true
    } else if str_eq(path, "new-api/pkg/new_api.js") {
        proof {
            assert(allow_list()[4] == path@);
        }
        true
    } else {
        proof {
            assert forall|i: int| 0 <= i < allow_list().len() implies allow_list()[i] != path@
            by {
            }
        }
        false
    }
}

/// Everything in `url` before the first `?`, or all of it when it has none.
pub open spec fn strip_query(url: Seq<char>) -> Seq<char> {
    match find_char(url, '?') {
        None => url,
        Some(i) => url.subrange(0, i),
    }
}

/// `p` without one leading slash, when it has one.
pub open spec fn strip_leading_slash(p: Seq<char>) -> Seq<char> {
    if p.len() > 0 && p[0] == '/' {
        p.subrange(1, p.len() as int)
    } else {
        p
    }
}

/// `rel` placed under `base`, with a single slash between them.
pub open spec fn joined(base: Seq<char>, rel: Seq<char>) -> Seq<char> {
    if base.len() == 0 || base[base.len() - 1] == '/' {
        base + rel
    } else {
        base + seq!['/'] + rel
    }
}

/// The target and permission for a request URL: the query string is
/// discarded; `/` maps to the index document and is always permitted; any
/// other path, less one leading slash, is joined under the base directory
/// and permitted exactly when the allow-list holds it.
pub open spec fn resolve_spec(base: Seq<char>, url: Seq<char>) -> (Seq<char>, bool) {
    let p = strip_query(url);
    if p == seq!['/'] {
        (joined(base, "index.html"@), true)
    } else {
        let rel = strip_leading_slash(p);
        (joined(base, rel), allow_list().contains(rel))
    }
}

/// `rel` appended under `base`, inserting a slash unless `base` is empty or
/// already ends with one.
fn join_under(base: &str, rel: &str) -> (r: String)
    ensures
        r@ == joined(base@, rel@),
{
    let nb = base.unicode_len();
    let needs_slash = if nb == 0 {
        false
    } else {
        base.get_char(nb - 1) != '/'
    };
    let mut out = String::from_str(base);
    if needs_slash {
        out.append("/");
        proof {
            reveal_strlit("/");
            assert("/"@ =~= seq!['/']);
        }
    }
    out.append(rel);
    out
}

/// The filesystem target and the permission verdict for one request URL.
pub fn resolve(base_directory: &str, request_url: &str) -> (r: (String, bool))
    ensures
        r.0@ == resolve_spec(base_directory@, request_url@).0,
        r.1 == resolve_spec(base_directory@, request_url@).1,
{
    let n = request_url.unicode_len();
    let stripped = match find_char_in(request_url, '?') {
        None => request_url,
        Some(i) => {
            proof {
                lemma_find_char(request_url@, '?');
            }
            request_url.substring_char(0, i)
        },
    };
    let sl = stripped.unicode_len();
    let is_root = if sl == 1 {
        stripped.get_char(0) == '/'
    } else {
        false
    };
    if is_root {
        proof {
            assert(stripped@ =~= seq!['/']);
        }
        (join_under(base_directory, "index.html"), true)
    } else {
        proof {
            assert(stripped@ != seq!['/']);
        }
        let has_slash = if sl == 0 {
            false
        } else {
            stripped.get_char(0) == '/'
        };
        let rel = if has_slash {
            stripped.substring_char(1, sl)
        } else {
            stripped
        };
        let permitted = is_served_path(rel);
        (join_under(base_directory, rel), permitted)
    }
}

/// A request whose path, after query stripping, is neither `/` nor an
/// allow-list entry is never permitted, whatever is on disk.
pub proof fn lemma_unlisted_rejected(base: Seq<char>, url: Seq<char>)
    requires
        strip_query(url) != seq!['/'],
        !allow_list().contains(strip_leading_slash(strip_query(url))),
    ensures
        !resolve_spec(base, url).1,
{
}

/// The root path always resolves to the index document, permitted.
pub proof fn lemma_root_resolves_to_index(base: Seq<char>)
    ensures
        resolve_spec(base, "/"@).0 == joined(base, "index.html"@),
        resolve_spec(base, "/"@).1,
{
    reveal_strlit("/");
    assert("/"@ =~= seq!['/']);
    lemma_find_char_none("/"@, '?');
}

/// A request whose path, after query stripping, is an allow-list entry
/// (less its leading slash) is always permitted.
pub proof fn lemma_allowlisted_permitted(base: Seq<char>, url: Seq<char>)
    requires
        allow_list().contains(strip_leading_slash(strip_query(url))),
    ensures
        resolve_spec(base, url).1,
{
}

/// Query strings are ignored for routing: a path with a query appended
/// resolves exactly as the bare path does.
pub proof fn lemma_query_string_ignored(base: Seq<char>, path: Seq<char>, query: Seq<char>)
    requires
        forall|j: int| 0 <= j < path.len() ==> path[j] != '?',
    ensures
        resolve_spec(base, path + seq!['?'] + query) == resolve_spec(base, path),
{
    let url = path + seq!['?'] + query;
    assert(url[path.len() as int] == '?');
    assert forall|j: int| 0 <= j < path.len() implies url[j] != '?' by {
        assert(url[j] == path[j]);
    }
    lemma_find_char_at(url, '?', path.len() as int);
    assert(strip_query(url) =~= path);
    lemma_find_char_none(path, '?');
    assert(strip_query(path) == path);
}

} // verus!
