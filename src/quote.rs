//! Canonical quoting of string literals.
use vstd::prelude::*;

use crate::config::QuoteStyle;
use crate::text::{chars_of, contains_char, push_all, slice, string_of};

verus! {

/// `t` rewritten from `from` quotes to `to` quotes where that needs no escaping: `t` already
/// begins with `to`; or it is `from`-quoted and its inner content holds neither `to` nor a
/// backslash. Anything else stays as it is.
pub open spec fn requote(t: Seq<char>, from: char, to: char) -> Seq<char> {
    if t.len() > 0 && t[0] == to {
        t
    } else if t.len() >= 2 && t[0] == from && t.last() == from && !t.subrange(
        1,
        t.len() - 1,
    ).contains(to) && !t.subrange(1, t.len() - 1).contains('\\') {
        seq![to] + t.subrange(1, t.len() - 1) + seq![to]
    } else {
        t
    }
}

/// The literal `t` in the quote style `style`.
pub open spec fn canonical_quotes(t: Seq<char>, style: QuoteStyle) -> Seq<char> {
    match style {
        QuoteStyle::Preserve => t,
        QuoteStyle::Double => requote(t, '\'', '"'),
        QuoteStyle::Single => requote(t, '"', '\''),
    }
}

/// Rewrites `t` from `from` quotes to `to` quotes where that is safe.
pub fn requote_chars(t: &Vec<char>, from: char, to: char) -> (r: Vec<char>)
    ensures
        r@ == requote(t@, from, to),
{
    let n = t.len();
    if n > 0 && t[0] == to {
        return t.clone();
    }
    if n >= 2 && t[0] == from && t[n - 1] == from {
        let inner = slice(t, 1, n - 1);
        if !contains_char(&inner, to) && !contains_char(&inner, '\\') {
            let mut r: Vec<char> = Vec::new();
            r.push(to);
            push_all(&mut r, &inner);
            r.push(to);
            proof {
                assert(t@.last() == t@[n - 1]);
                assert(r@ == seq![to] + t@.subrange(1, n - 1) + seq![to]);
            }
            return r;
        }
    }
    t.clone()
}

/// The literal `t` in the quote style `style`, as characters.
pub fn canonical_quotes_chars(t: &Vec<char>, style: QuoteStyle) -> (r: Vec<char>)
    ensures
        r@ == canonical_quotes(t@, style),
{
    match style {
        QuoteStyle::Preserve => t.clone(),
        QuoteStyle::Double => requote_chars(t, '\'', '"'),
        QuoteStyle::Single => requote_chars(t, '"', '\''),
    }
}

/// Converts a string literal to the configured quote style where no escaping is needed.
pub fn convert_string_quotes(token: &str, style: QuoteStyle) -> (r: String)
    ensures
        r@ == canonical_quotes(token@, style),
{
    string_of(&canonical_quotes_chars(&chars_of(token), style))
}

/// Converts a string literal to double quotes where no escaping is needed.
pub fn to_double_quotes(token: &str) -> (r: String)
    ensures
        r@ == requote(token@, '\'', '"'),
{
    string_of(&requote_chars(&chars_of(token), '\'', '"'))
}

/// Converts a string literal to single quotes where no escaping is needed.
pub fn to_single_quotes(token: &str) -> (r: String)
    ensures
        r@ == requote(token@, '"', '\''),
{
    string_of(&requote_chars(&chars_of(token), '"', '\''))
}

/// Quote conversion never touches a literal's content: where the result differs from the
/// literal, the two have the same length and the same characters between their first and
/// last one.
pub proof fn lemma_requote_keeps_content(t: Seq<char>, style: QuoteStyle)
    ensures
        canonical_quotes(t, style) != t ==> {
            let r = canonical_quotes(t, style);
            &&& t.len() >= 2
            &&& r.len() == t.len()
            &&& r.subrange(1, r.len() - 1) == t.subrange(1, t.len() - 1)
        },
{
    let r = canonical_quotes(t, style);
    if r != t {
        let n = t.len() as int;
        let inner = t.subrange(1, n - 1);
        assert(r.subrange(1, r.len() - 1) == inner);
    }
}

} // verus!
