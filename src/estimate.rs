//! Looking ahead from an open bracket: the width that the construct would take on one line,
//! and whether a gap inside it holds a newline.
use vstd::prelude::*;

use crate::delim::{is_close_bracket_seq, is_open_bracket_seq};
use crate::layout::add_sat;
use crate::text::{
    contains_char, ends_with, ends_with_char, is_char, starts_with, starts_with_char, trim, trim_of,
};
use crate::token::{byte_len, total_bytes, views, Shape, Token, TokenView};

verus! {

/// The two kinds of bracketed construct whose width is estimated.
#[derive(Clone, Copy, Debug, PartialEq, Eq, Structural)]
pub enum BracketClass {
    /// Records and lists, delimited by `{ }` and `[ ]` tokens of their own.
    Collection,
    /// Blocks and closures, whose braces may share a token with other text.
    Block,
}

/// Tokens of shape `s` take part in the bracket depth of class `k`.
pub open spec fn in_class(s: Shape, k: BracketClass) -> bool {
    match k {
        BracketClass::Collection => s == Shape::Record || s == Shape::List,
        BracketClass::Block => s == Shape::Block || s == Shape::Closure,
    }
}

/// Trimmed token text `tr` opens a construct of class `k`.
pub open spec fn opens(tr: Seq<char>, k: BracketClass) -> bool {
    match k {
        BracketClass::Collection => is_open_bracket_seq(tr),
        BracketClass::Block => starts_with(tr, '{'),
    }
}

/// Trimmed token text `tr` closes a construct of class `k`.
pub open spec fn closes(tr: Seq<char>, k: BracketClass) -> bool {
    match k {
        BracketClass::Collection => is_close_bracket_seq(tr),
        BracketClass::Block => ends_with(tr, '}'),
    }
}

/// The width that trimmed token text `tr` adds, where `depth` is the bracket depth after it;
/// text counts by its length in bytes.
pub open spec fn contribution(tr: Seq<char>, depth: int, k: BracketClass) -> nat {
    match k {
        BracketClass::Collection => if is_open_bracket_seq(tr) {
            1
        } else if is_close_bracket_seq(tr) {
            if depth > 0 {
                1
            } else {
                0
            }
        } else if tr == seq![':'] || tr == seq![','] {
            2
        } else {
            byte_len(tr)
        },
        BracketClass::Block => byte_len(tr),
    }
}

/// The width that gap `g` adds: the bytes of its trimmed content and one space, or one space
/// for pure whitespace, or nothing for an empty gap.
pub open spec fn gap_width(g: Seq<char>) -> nat {
    if trim(g).len() > 0 {
        byte_len(trim(g)) + 1
    } else if g.len() > 0 {
        1
    } else {
        0
    }
}

/// The walk of the estimator from token `idx` on, at bracket depth `depth`, with the width
/// and newline flag gathered so far.
pub open spec fn estimate_from(
    toks: Seq<TokenView>,
    idx: int,
    depth: int,
    width: nat,
    nl: bool,
    k: BracketClass,
) -> (nat, bool)
    decreases toks.len() - idx,
{
    if idx < 0 || idx >= toks.len() || depth <= 0 {
        (width, nl)
    } else {
        let t = toks[idx];
        let tr = trim(t.text);
        let d = if in_class(t.shape, k) {
            depth + (if opens(tr, k) { 1int } else { 0int }) - (if closes(tr, k) { 1int } else { 0int })
        } else {
            depth
        };
        estimate_from(
            toks,
            idx + 1,
            d,
            add_sat(add_sat(width, gap_width(t.gap)), contribution(tr, d, k)),
            nl || t.gap.contains('\n'),
            k,
        )
    }
}

/// The estimated one-line width of the construct whose content starts at token `start`, and
/// whether a gap inside it holds a newline.
pub open spec fn estimate(toks: Seq<TokenView>, start: int, k: BracketClass) -> (nat, bool) {
    estimate_from(toks, start, 1, 2, false, k)
}

/// The length of `v` in UTF-8 bytes, saturating at the largest `usize`.
fn byte_width(v: &Vec<char>) -> (r: usize)
    ensures
        r == if byte_len(v@) > usize::MAX {
            usize::MAX as nat
        } else {
            byte_len(v@)
        },
{
    let b = total_bytes(v);
    if b > usize::MAX as u128 {
        usize::MAX
    } else {
        b as usize
    }
}

/// Estimates the one-line width of the construct whose content starts at token `start`.
pub fn estimate_width(toks: &Vec<Token>, start: usize, k: BracketClass) -> (r: (usize, bool))
    requires
        1 <= start <= toks.len(),
    ensures
        (r.0 as nat, r.1) == estimate(views(toks@), start as int, k),
{
    let ghost vs = views(toks@);
    let mut idx: usize = start;
    let mut depth: usize = 1;
    let mut width: usize = 2;
    let mut nl = false;
    while idx < toks.len() && depth > 0
        invariant
            start <= idx <= toks.len(),
            1 <= start,
            depth <= idx - start + 1,
            vs == views(toks@),
            estimate(vs, start as int, k) == estimate_from(
                vs,
                idx as int,
                depth as int,
                width as nat,
                nl,
                k,
            ),
        decreases toks.len() - idx,
    {
        let t = &toks[idx];
        assert(vs[idx as int] == t@);
        if contains_char(&t.gap_before, '\n') {
            nl = true;
        }
        let gt = trim_of(&t.gap_before);
        if gt.len() > 0 {
            width = width.saturating_add(byte_width(&gt)).saturating_add(1);
        } else if t.gap_before.len() > 0 {
            width = width.saturating_add(1);
        }
        let tr = trim_of(&t.text);
        let member = match k {
            BracketClass::Collection => t.shape == Shape::Record || t.shape == Shape::List,
            BracketClass::Block => t.shape == Shape::Block || t.shape == Shape::Closure,
        };
        if member {
            let o = match k {
                BracketClass::Collection => is_char(&tr, '{') || is_char(&tr, '['),
                BracketClass::Block => starts_with_char(&tr, '{'),
            };
            let c = match k {
                BracketClass::Collection => is_char(&tr, '}') || is_char(&tr, ']'),
                BracketClass::Block => ends_with_char(&tr, '}'),
            };
            if o {
                depth = depth + 1;
            }
            if c {
                depth = depth - 1;
            }
        }
        let add: usize = match k {
            BracketClass::Collection => if is_char(&tr, '{') || is_char(&tr, '[') {
                1
            } else if is_char(&tr, '}') || is_char(&tr, ']') {
                if depth > 0 {
                    1
                } else {
                    0
                }
            } else if is_char(&tr, ':') || is_char(&tr, ',') {
                2
            } else {
                byte_width(&tr)
            },
            BracketClass::Block => byte_width(&tr),
        };
        width = width.saturating_add(add);
        idx = idx + 1;
    }
    (width, nl)
}

} // verus!
