//! Query-string parsing: the `key=value` pairs of a `&`-separated query
//! whose keys start with a given prefix. Used by front-ends to pick log
//! settings out of a page's query string.

use vstd::prelude::*;
use vstd::string::{StrSliceExecFns, StringExecFns};

use crate::text::{
    find_char_in, lemma_find_char, lemma_split_on_first, lemma_split_on_len, split_on, split_str,
    starts_with, str_starts_with,
};

verus! {

/// Whether a query segment is picked up: it contains a `=`, and its key
/// (the part before the first `=`) starts with `prefix`.
pub open spec fn segment_selected(seg: Seq<char>, prefix: Seq<char>) -> bool {
    let parts = split_on(seg, '=');
    parts.len() >= 2 && starts_with(parts[0], prefix)
}

/// The key and value of a segment: the pieces before the first `=` and
/// between the first and the second, if any.
pub open spec fn segment_pair(seg: Seq<char>) -> (Seq<char>, Seq<char>) {
    let parts = split_on(seg, '=');
    (parts[0], parts[1])
}

/// The key/value pairs of the selected segments, in order.
pub open spec fn selected_pairs(segs: Seq<Seq<char>>, prefix: Seq<char>) -> Seq<
    (Seq<char>, Seq<char>),
>
    decreases segs.len(),
{
    if segs.len() == 0 {
        Seq::empty()
    } else {
        let rest = selected_pairs(segs.drop_last(), prefix);
        if segment_selected(segs.last(), prefix) {
            rest.push(segment_pair(segs.last()))
        } else {
            rest
        }
    }
}

/// The pairs of a whole query string: split on `&`, keep the segments whose
/// key starts with `prefix`, and take each one's key and value.
pub open spec fn query_pairs(query: Seq<char>, prefix: Seq<char>) -> Seq<(Seq<char>, Seq<char>)> {
    selected_pairs(split_on(query, '&'), prefix)
}

/// Appending one segment appends its pair exactly when it is selected.
pub proof fn lemma_selected_pairs_push(segs: Seq<Seq<char>>, seg: Seq<char>, prefix: Seq<char>)
    ensures
        selected_pairs(segs.push(seg), prefix) == if segment_selected(seg, prefix) {
            selected_pairs(segs, prefix).push(segment_pair(seg))
        } else {
            selected_pairs(segs, prefix)
        },
{
    assert(segs.push(seg).drop_last() =~~= segs);
    assert(segs.push(seg).last() == seg);
}

/// The `key=value` pairs of `query`, split on `&`, whose key starts with
/// `key_prefix`; the value of each pair ends at the next `=`, if any.
pub fn parse_url_query_string(query: &str, key_prefix: &str) -> (r: Vec<(String, String)>)
    ensures
        r.deep_view() == query_pairs(query@, key_prefix@),
{
    let segs = split_str(query, '&');
    let ghost all = split_on(query@, '&');
    let mut r: Vec<(String, String)> = Vec::new();
    let mut k: usize = 0;
    proof {
        assert(all.subrange(0, 0) =~~= Seq::<Seq<char>>::empty());
    }
    while k < segs.len()
        invariant
            segs.deep_view() == all,
            all == split_on(query@, '&'),
            0 <= k <= segs.len(),
            r.deep_view() == selected_pairs(all.subrange(0, k as int), key_prefix@),
        decreases segs.len() - k,
    {
        let seg: &str = segs[k].as_str();
        proof {
            assert(seg@ == all[k as int]);
        }
        let ghost prev = r.deep_view();
        let sn = seg.unicode_len();
        match find_char_in(seg, '=') {
            None => {
                proof {
                    lemma_split_on_first(seg@, '=');
                    assert(!segment_selected(seg@, key_prefix@));
                }
            },
            Some(i) => {
                proof {
                    lemma_find_char(seg@, '=');
                    lemma_split_on_first(seg@, '=');
                    lemma_split_on_len(seg@.subrange(i + 1, seg@.len() as int), '=');
                }
                let key = seg.substring_char(0, i);
                let tail = seg.substring_char(i + 1, sn);
                if str_starts_with(key, key_prefix) {
                    proof {
                        lemma_split_on_first(tail@, '=');
                    }
                    let value = match find_char_in(tail, '=') {
                        None => tail,
                        Some(j) => {
                            proof {
                                lemma_find_char(tail@, '=');
                            }
                            tail.substring_char(0, j)
                        },
                    };
                    proof {
                        assert(segment_selected(seg@, key_prefix@));
                        assert(segment_pair(seg@) == (key@, value@));
                    }
                    r.push((String::from_str(key), String::from_str(value)));
                    proof {
                        assert(r.deep_view() =~~= prev.push((key@, value@)));
                    }
                } else {
                    proof {
                        assert(!segment_selected(seg@, key_prefix@));
                    }
                }
            },
        }
        proof {
            assert(all.subrange(0, k + 1) =~~= all.subrange(0, k as int).push(all[k as int]));
            lemma_selected_pairs_push(all.subrange(0, k as int), all[k as int], key_prefix@);
        }
        k = k + 1;
    }
    proof {
        assert(all.subrange(0, segs.len() as int) =~~= all);
    }
    r
}

} // verus!
