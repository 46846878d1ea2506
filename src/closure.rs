//! Closure parameters at the start of a block's text.
use vstd::prelude::*;
use vstd::string::*;

use crate::text::{
    chars_of, find_char, find_from, lemma_find_from_bounds, lemma_find_skip, lemma_skip_ws_bounds,
    skip_ws, slice, trim_start,
};

verus! {

/// The parameter list `|...|` that opens `s` after any whitespace, split from what follows it;
/// `None` where `s` opens with no complete parameter list.
pub open spec fn closure_split(s: Seq<char>) -> Option<(Seq<char>, Seq<char>)> {
    let t = trim_start(s);
    let k = find_from(t, '|', 1);
    if t.len() > 0 && t[0] == '|' && k < t.len() {
        Some((t.subrange(0, k + 1), t.subrange(k + 1, t.len() as int)))
    } else {
        None
    }
}

/// Splits closure parameters off the front of `v`.
pub fn closure_params(v: &Vec<char>) -> (r: Option<(Vec<char>, Vec<char>)>)
    ensures
        r is None <==> closure_split(v@) is None,
        r matches Some((p, rest)) ==> closure_split(v@) == Some((p@, rest@)),
{
    let (w, k) = split_points(v);
    if w < v.len() && k < v.len() {
        Some((slice(v, w, k + 1), slice(v, k + 1, v.len())))
    } else {
        None
    }
}

/// Where the parameter list of `v` begins and where its closing bar stands; the second is
/// the length where there is none.
fn split_points(v: &Vec<char>) -> (r: (usize, usize))
    ensures
        r.0 <= r.1 <= v.len(),
        closure_split(v@) is Some <==> r.1 < v.len(),
        closure_split(v@) matches Some((p, rest)) ==> p == v@.subrange(r.0 as int, r.1 + 1)
            && rest == v@.subrange(r.1 + 1, v.len() as int),
{
    let mut w: usize = 0;
    while w < v.len() && crate::text::is_whitespace(v[w])
        invariant
            w <= v.len(),
            skip_ws(v@, w as int) == skip_ws(v@, 0),
        decreases v.len() - w,
    {
        w = w + 1;
    }
    proof {
        lemma_skip_ws_bounds(v@, 0);
    }
    let ghost t = trim_start(v@);
    assert(t == v@.subrange(w as int, v.len() as int));
    if w < v.len() && v[w] == '|' {
        let k = find_char(v, '|', w + 1);
        proof {
            lemma_find_from_bounds(v@, '|', w + 1);
            lemma_find_from_bounds(t, '|', 1);
            assert(t == v@.skip(w as int));
            lemma_find_skip(v@, '|', w as int, 1);
        }
        (w, k)
    } else {
        (w, v.len())
    }
}

/// Splits closure parameters like `|x, y|` off the front of `content`: the parameters and
/// what follows them, or `None` and `content` itself.
pub fn parse_closure_params(content: &str) -> (r: (Option<&str>, &str))
    ensures
        closure_split(content@) matches Some((p, rest)) ==> r.0 matches Some(q) && q@ == p
            && r.1@ == rest,
        closure_split(content@) is None ==> r.0 is None && r.1@ == content@,
{
    let v = chars_of(content);
    let (w, k) = split_points(&v);
    if k < v.len() {
        let params = content.substring_char(w, k + 1);
        let rest = content.substring_char(k + 1, v.len());
        (Some(params), rest)
    } else {
        (None, content)
    }
}

} // verus!
