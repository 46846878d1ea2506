//! Tests on the brackets at the edges of a token's text.
use vstd::prelude::*;

use crate::text::{chars_of, count_char, count_of, ends_with, ends_with_char, starts_with, starts_with_char};

verus! {

/// Whether `text` begins with `{`.
pub fn starts_with_open_brace(text: &str) -> (r: bool)
    ensures
        r == starts_with(text@, '{'),
{
    starts_with_char(&chars_of(text), '{')
}

/// Whether `text` ends with `}`.
pub fn ends_with_close_brace(text: &str) -> (r: bool)
    ensures
        r == ends_with(text@, '}'),
{
    ends_with_char(&chars_of(text), '}')
}

/// Whether `text` begins with `(`.
pub fn starts_with_open_paren(text: &str) -> (r: bool)
    ensures
        r == starts_with(text@, '('),
{
    starts_with_char(&chars_of(text), '(')
}

/// Whether `text` ends with `)`.
pub fn ends_with_close_paren(text: &str) -> (r: bool)
    ensures
        r == ends_with(text@, ')'),
{
    ends_with_char(&chars_of(text), ')')
}

/// `s` is an opening brace or square bracket, alone.
pub open spec fn is_open_bracket_seq(s: Seq<char>) -> bool {
    s == seq!['{'] || s == seq!['[']
}

/// `s` is a closing brace or square bracket, alone.
pub open spec fn is_close_bracket_seq(s: Seq<char>) -> bool {
    s == seq!['}'] || s == seq![']']
}

/// Whether `text` is exactly `{` or `[`.
pub fn is_open_bracket(text: &str) -> (r: bool)
    ensures
        r == is_open_bracket_seq(text@),
{
    let v = chars_of(text);
    proof {
        if v@.len() == 1 {
            assert(v@ == seq![v@[0]]);
        }
    }
    v.len() == 1 && (v[0] == '{' || v[0] == '[')
}

/// Whether `text` is exactly `}` or `]`.
pub fn is_close_bracket(text: &str) -> (r: bool)
    ensures
        r == is_close_bracket_seq(text@),
{
    let v = chars_of(text);
    proof {
        if v@.len() == 1 {
            assert(v@ == seq![v@[0]]);
        }
    }
    v.len() == 1 && (v[0] == '}' || v[0] == ']')
}

/// Whether `text` ends with `}` or `]`.
pub fn ends_with_close_bracket(text: &str) -> (r: bool)
    ensures
        r == (ends_with(text@, '}') || ends_with(text@, ']')),
{
    let v = chars_of(text);
    ends_with_char(&v, '}') || ends_with_char(&v, ']')
}

/// How many closing braces `text` holds.
pub fn count_close_braces(text: &str) -> (r: usize)
    ensures
        r == count_char(text@, '}'),
{
    count_of(&chars_of(text), '}')
}

} // verus!
