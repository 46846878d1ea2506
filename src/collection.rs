//! Records and lists: brackets, field and item separators, and the composite tokens that
//! carry newlines, comments or a closing bracket.
use vstd::prelude::*;

use crate::config::{BracketSpacing, Config, TrailingComma};
use crate::delim::{is_close_bracket_seq, is_open_bracket_seq};
use crate::estimate::{estimate, estimate_width, BracketClass};
use crate::layout::{
    add_sat, break_line, indent_of, lemma_put_put, line_pos, opener_multiline, pop_layout, put,
    sub_sat, with_indent, EmitState, Emitter,
};
use crate::text::{
    contains_char, ends_with, ends_with_char, find_char, find_from, is_char, lemma_find_from_bounds,
    slice, trim, trim_end, trim_end_of, trim_of,
};
use crate::token::{views, Token, TokenView};

verus! {

/// The comma that ends a multi-line element line, if the configuration asks for one.
pub open spec fn trailing_comma(c: Config) -> Seq<char> {
    if c.trailing_comma == TrailingComma::Always {
        seq![',']
    } else {
        Seq::empty()
    }
}

/// An opening bracket `tr` at token `i`: on several lines when the token holds a newline, a
/// gap inside holds one, or the current column plus the estimate exceeds the maximum width;
/// the choice is kept until the matching close.
pub open spec fn collection_open(
    st: EmitState,
    toks: Seq<TokenView>,
    c: Config,
    i: int,
    tr: Seq<char>,
    nl: bool,
) -> EmitState {
    let (est, inl) = estimate(toks, i + 1, BracketClass::Collection);
    let force = nl || inl || line_pos(st.out) + est > c.max_width;
    let s1 = put(st, tr);
    let s2 = if force {
        break_line(with_indent(s1, add_sat(s1.indent, 1)), c)
    } else if c.bracket_spacing == BracketSpacing::Spaced {
        put(s1, seq![' '])
    } else {
        s1
    };
    EmitState { stack: s2.stack.push(force), ..s2 }
}

/// A closing bracket `tr`, laid out as its opener chose.
pub open spec fn collection_close(st: EmitState, tr: Seq<char>, c: Config) -> EmitState {
    let s0 = pop_layout(st);
    if opener_multiline(st) {
        let s1 = with_indent(s0, sub_sat(s0.indent, 1));
        put(s1, trailing_comma(c) + seq!['\n'] + indent_of(s1.indent, c) + tr)
    } else if c.bracket_spacing == BracketSpacing::Spaced {
        put(s0, seq![' '] + tr)
    } else {
        put(s0, tr)
    }
}

/// Lowering the indentation stops at zero: a closing bracket lowers the level by one where
/// its opener went to several lines and the level is positive, and never below zero.
pub proof fn lemma_collection_close_saturates(st: EmitState, tr: Seq<char>, nl: bool, c: Config)
    ensures
        collection_close(st, tr, c).indent == if opener_multiline(st) {
            sub_sat(st.indent, 1)
        } else {
            st.indent
        },
        collection_close_complex(st, tr, nl, c).indent == if nl {
            sub_sat(st.indent, 1)
        } else {
            st.indent
        },
{
}

/// What a composite closing token writes before its bracket: the trimmed text before the
/// bracket, except a lone comma, which the closing line writes or drops as configured.
pub open spec fn close_prefix(tr: Seq<char>) -> Seq<char> {
    let p = trim(tr.drop_last());
    if p == seq![','] {
        Seq::empty()
    } else {
        p
    }
}

/// A composite token whose trimmed text `tr` ends with a closing bracket: the text before the
/// bracket, then the bracket, on a line of its own when the token holds a newline.
pub open spec fn collection_close_complex(
    st: EmitState,
    tr: Seq<char>,
    nl: bool,
    c: Config,
) -> EmitState {
    let s0 = put(pop_layout(st), close_prefix(tr));
    let b = seq![tr.last()];
    if nl {
        let s1 = with_indent(s0, sub_sat(s0.indent, 1));
        put(s1, trailing_comma(c) + seq!['\n'] + indent_of(s1.indent, c) + b)
    } else if c.bracket_spacing == BracketSpacing::Spaced {
        put(s0, seq![' '] + b)
    } else {
        put(s0, b)
    }
}

/// A token of whitespace over a line end: an item separator.
pub open spec fn newline_separator(st: EmitState, c: Config) -> EmitState {
    break_line(put(st, trailing_comma(c)), c)
}

/// Another token over a line end: its comment, if any, after the trailing comma, then a line
/// break.
pub open spec fn token_with_newline(st: EmitState, text: Seq<char>, c: Config) -> EmitState {
    let h = find_from(text, '#', 0);
    if h < text.len() {
        break_line(put(st, trailing_comma(c) + seq![' '] + trim_end(text.skip(h))), c)
    } else {
        break_line(st, c)
    }
}

/// The record or list token at position `i`. An item separator breaks the line where the
/// innermost open record or list is laid out on several lines.
pub open spec fn collection_token(
    st: EmitState,
    toks: Seq<TokenView>,
    c: Config,
    i: int,
) -> EmitState {
    let t = toks[i];
    let tr = trim(t.text);
    let nl = t.text.contains('\n');
    if is_open_bracket_seq(tr) {
        collection_open(st, toks, c, i, tr, nl)
    } else if is_close_bracket_seq(tr) {
        collection_close(st, tr, c)
    } else if tr == seq![':'] {
        put(st, seq![':', ' '])
    } else if tr == seq![','] {
        if opener_multiline(st) {
            break_line(put(st, seq![',']), c)
        } else {
            put(st, seq![',', ' '])
        }
    } else if ends_with(tr, '}') || ends_with(tr, ']') {
        collection_close_complex(st, tr, nl, c)
    } else if nl && tr.len() == 0 {
        newline_separator(st, c)
    } else if nl {
        token_with_newline(st, t.text, c)
    } else {
        put(st, tr)
    }
}

/// Writes the trailing comma, if configured.
fn put_trailing_comma(e: &mut Emitter, c: &Config)
    requires
        old(e).wf(),
    ensures
        final(e).wf(),
        final(e).state() == put(old(e).state(), trailing_comma(*c)),
{
    if c.trailing_comma == TrailingComma::Always {
        e.put_char(',');
    } else {
        assert(e.state().out + Seq::<char>::empty() == e.state().out);
    }
}

/// Writes the trailing comma, a line break, the indentation and `b`.
fn put_closing_line(e: &mut Emitter, b: &Vec<char>, c: &Config)
    requires
        old(e).wf(),
    ensures
        final(e).wf(),
        final(e).state() == put(
            old(e).state(),
            trailing_comma(*c) + seq!['\n'] + indent_of(old(e).state().indent, *c) + b@,
        ),
{
    let ghost st = e.state();
    put_trailing_comma(e, c);
    e.put_break(c);
    e.put_all(b);
    proof {
        lemma_put_put(st, trailing_comma(*c), seq!['\n'] + indent_of(st.indent, *c));
        lemma_put_put(st, trailing_comma(*c) + (seq!['\n'] + indent_of(st.indent, *c)), b@);
        assert(trailing_comma(*c) + (seq!['\n'] + indent_of(st.indent, *c)) == trailing_comma(*c)
            + seq!['\n'] + indent_of(st.indent, *c));
    }
}

/// Lays out an opening bracket at token `i`.
fn collection_open_exec(
    e: &mut Emitter,
    toks: &Vec<Token>,
    c: &Config,
    i: usize,
    tr: &Vec<char>,
    nl: bool,
)
    requires
        old(e).wf(),
        i < toks.len(),
    ensures
        final(e).wf(),
        final(e).state() == collection_open(old(e).state(), views(toks@), *c, i as int, tr@, nl),
{
    let (est, inl) = estimate_width(toks, i + 1, BracketClass::Collection);
    let col = e.column();
    let force = nl || inl || col > c.max_width || est > c.max_width - col;
    e.put_all(tr);
    if force {
        e.indent_add(1);
        e.put_break(c);
    } else if c.bracket_spacing == BracketSpacing::Spaced {
        e.put_char(' ');
    }
    e.push_layout(force);
}

/// Lays out a closing bracket.
fn collection_close_exec(e: &mut Emitter, tr: &Vec<char>, c: &Config)
    requires
        old(e).wf(),
    ensures
        final(e).wf(),
        final(e).state() == collection_close(old(e).state(), tr@, *c),
{
    let ghost s0 = e.state();
    let multi = e.pop_layout();
    if multi {
        e.indent_sub(1);
        put_closing_line(e, tr, c);
    } else if c.bracket_spacing == BracketSpacing::Spaced {
        let ghost s1 = e.state();
        e.put_char(' ');
        e.put_all(tr);
        proof {
            lemma_put_put(s1, seq![' '], tr@);
        }
    } else {
        e.put_all(tr);
    }
}

/// Lays out a composite token that ends with a closing bracket.
fn collection_close_complex_exec(e: &mut Emitter, tr: &Vec<char>, nl: bool, c: &Config)
    requires
        old(e).wf(),
        tr.len() > 0,
    ensures
        final(e).wf(),
        final(e).state() == collection_close_complex(old(e).state(), tr@, nl, *c),
{
    let _ = e.pop_layout();
    let n = tr.len();
    let p = trim_of(&slice(tr, 0, n - 1));
    let prefix = if is_char(&p, ',') {
        Vec::new()
    } else {
        p
    };
    let mut b: Vec<char> = Vec::new();
    b.push(tr[n - 1]);
    proof {
        assert(tr@.subrange(0, n - 1) == tr@.drop_last());
        assert(prefix@ == close_prefix(tr@));
        assert(b@ == seq![tr@.last()]);
    }
    e.put_all(&prefix);
    if nl {
        e.indent_sub(1);
        put_closing_line(e, &b, c);
    } else if c.bracket_spacing == BracketSpacing::Spaced {
        let ghost s1 = e.state();
        e.put_char(' ');
        e.put_all(&b);
        proof {
            lemma_put_put(s1, seq![' '], b@);
        }
    } else {
        e.put_all(&b);
    }
}

/// Lays out a token over a line end that is not only whitespace.
fn token_with_newline_exec(e: &mut Emitter, text: &Vec<char>, c: &Config)
    requires
        old(e).wf(),
    ensures
        final(e).wf(),
        final(e).state() == token_with_newline(old(e).state(), text@, *c),
{
    let ghost st = e.state();
    let h = find_char(text, '#', 0);
    proof {
        lemma_find_from_bounds(text@, '#', 0);
    }
    if h < text.len() {
        let comment = trim_end_of(&slice(text, h, text.len()));
        put_trailing_comma(e, c);
        e.put_char(' ');
        e.put_all(&comment);
        proof {
            lemma_put_put(st, trailing_comma(*c), seq![' ']);
            lemma_put_put(st, trailing_comma(*c) + seq![' '], comment@);
        }
    }
    e.put_break(c);
}

/// Lays out the record or list token at position `i`.
pub(crate) fn collection_token_exec(e: &mut Emitter, toks: &Vec<Token>, c: &Config, i: usize)
    requires
        old(e).wf(),
        i < toks.len(),
    ensures
        final(e).wf(),
        final(e).state() == collection_token(old(e).state(), views(toks@), *c, i as int),
{
    let ghost st = e.state();
    let t = &toks[i];
    assert(views(toks@)[i as int] == t@);
    let tr = trim_of(&t.text);
    let nl = contains_char(&t.text, '\n');
    if is_char(&tr, '{') || is_char(&tr, '[') {
        collection_open_exec(e, toks, c, i, &tr, nl);
    } else if is_char(&tr, '}') || is_char(&tr, ']') {
        collection_close_exec(e, &tr, c);
    } else if is_char(&tr, ':') {
        e.put_char(':');
        e.put_char(' ');
        proof {
            lemma_put_put(st, seq![':'], seq![' ']);
            assert(seq![':'] + seq![' '] == seq![':', ' ']);
        }
    } else if is_char(&tr, ',') {
        if e.stack.len() > 0 && e.stack[e.stack.len() - 1] {
            e.put_char(',');
            e.put_break(c);
        } else {
            e.put_char(',');
            e.put_char(' ');
            proof {
                lemma_put_put(st, seq![','], seq![' ']);
                assert(seq![','] + seq![' '] == seq![',', ' ']);
            }
        }
    } else if ends_with_char(&tr, '}') || ends_with_char(&tr, ']') {
        collection_close_complex_exec(e, &tr, nl, c);
    } else if nl && tr.len() == 0 {
        put_trailing_comma(e, c);
        e.put_break(c);
    } else if nl {
        token_with_newline_exec(e, &t.text, c);
    } else {
        e.put_all(&tr);
    }
}

} // verus!
