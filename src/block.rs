//! Blocks and closures: braces that arrive as whole blocks in one token, as separate open
//! and close tokens, or several closes in one token; and parenthesized blocks.
use vstd::prelude::*;

use crate::closure::{closure_params, closure_split};
use crate::config::Config;
use crate::estimate::{estimate, estimate_width, BracketClass};
use crate::layout::{
    add_sat, break_line, indent_of, lemma_put_put, put, sub_sat, with_indent, EmitState, Emitter,
};
use crate::text::{
    contains_char, count_char, count_of, ends_with, ends_with_char, find_char, find_from, is_char,
    lemma_find_from_bounds, line_end, slice, spaces, starts_with, starts_with_char, trim, trim_of,
};
use crate::token::{views, Token, TokenView};

verus! {

/// The lines of `rest`, each trimmed and set after `pre`, the empty ones dropped, joined by
/// line breaks; `started` says that a line was set already.
pub open spec fn body_lines(rest: Seq<char>, pre: Seq<char>, started: bool) -> Seq<char>
    decreases rest.len(),
{
    let k = find_from(rest, '\n', 0);
    let more = 0 <= k < rest.len();
    let tr = trim(rest.take(k));
    let piece = if tr.len() == 0 {
        Seq::empty()
    } else {
        (if started {
            seq!['\n']
        } else {
            Seq::empty()
        }) + pre + tr
    };
    if more {
        piece + body_lines(rest.skip(k + 1), pre, started || tr.len() > 0)
    } else {
        piece
    }
}

/// A whole block `{...}` in one token, `tr` its trimmed text: an empty body gives `{ }`
/// (after the parameters, if any); a body written over several lines gives one indented
/// line per non-empty line; any other body stays on the line between spaces.
pub open spec fn complete_block(st: EmitState, tr: Seq<char>, nl: bool, c: Config) -> EmitState {
    let inner = tr.subrange(1, tr.len() - 1);
    let split = closure_split(inner);
    let body = match split {
        Some((p, r)) => r,
        None => inner,
    };
    let open = match split {
        Some((p, r)) => seq!['{'] + p,
        None => seq!['{'],
    };
    let bt = trim(body);
    if bt.len() == 0 {
        put(st, open + seq![' ', '}'])
    } else if nl || body.contains('\n') {
        put(
            st,
            open + seq!['\n'] + body_lines(body, indent_of(st.indent + 1, c), false) + seq!['\n']
                + indent_of(st.indent, c) + seq!['}'],
        )
    } else {
        put(st, open + seq![' '] + bt + seq![' ', '}'])
    }
}

/// An opening brace `{` or `{|params|` at token `i`: one level deeper; on several lines when
/// the token holds a newline, a gap inside holds one, or the estimate exceeds the maximum
/// width; then anything after the brace is set on lines of its own.
pub open spec fn block_open(
    st: EmitState,
    toks: Seq<TokenView>,
    c: Config,
    i: int,
    tr: Seq<char>,
    nl: bool,
) -> EmitState {
    let (est, inl) = estimate(toks, i + 1, BracketClass::Block);
    let force = nl || inl || est > c.max_width;
    let after = tr.skip(1);
    let split = closure_split(after);
    let open = match split {
        Some((p, r)) => seq!['{'] + p,
        None => seq!['{'],
    };
    let rest = match split {
        Some((p, r)) => r,
        None => after,
    };
    let s1 = with_indent(st, add_sat(st.indent, 1));
    let ind = indent_of(s1.indent, c);
    if force {
        if trim(rest).len() == 0 {
            put(s1, open + seq!['\n'] + ind)
        } else {
            put(s1, open + seq!['\n'] + body_lines(trim(rest), ind, false) + seq!['\n'] + ind)
        }
    } else {
        put(s1, open + seq![' '])
    }
}

/// A closing brace: one level up; on a line of its own when the token holds a newline.
pub open spec fn block_close(st: EmitState, nl: bool, c: Config) -> EmitState {
    let s1 = with_indent(st, sub_sat(st.indent, 1));
    if nl {
        put(s1, seq!['\n'] + indent_of(s1.indent, c) + seq!['}'])
    } else {
        put(s1, seq![' ', '}'])
    }
}

/// Lowering the indentation stops at zero: a closing brace or parenthesis lowers the level
/// by one where it is positive and leaves level zero as it is.
pub proof fn lemma_block_close_saturates(st: EmitState, nl: bool, text: Seq<char>, c: Config)
    ensures
        block_close(st, nl, c).indent == sub_sat(st.indent, 1),
        st.indent == 0 ==> block_close(st, nl, c).indent == 0,
        trim(text) == seq![')'] && text.contains('\n') ==> paren_block(st, text, c).indent
            == sub_sat(st.indent, 1),
{
    if trim(text) == seq![')'] {
        assert(trim(text)[0] != seq!['('][0]);
    }
}

/// The closing braces `j` to `n` of one line of a multi-close token: each one level up, on a
/// line of its own.
pub open spec fn close_braces(st: EmitState, n: nat, j: nat, c: Config) -> EmitState
    decreases n - j,
{
    if j >= n {
        st
    } else {
        let s1 = break_line(with_indent(st, sub_sat(st.indent, 1)), c);
        close_braces(put(s1, seq!['}']), n, j + 1, c)
    }
}

/// One line of a multi-close token: its trimmed text up to its first brace (all of it where
/// it holds none, such as a comma), then its braces.
pub open spec fn multi_close_line(st: EmitState, line: Seq<char>, c: Config) -> EmitState {
    let tr = trim(line);
    if tr.len() == 0 {
        st
    } else {
        let before = trim(tr.take(find_from(tr, '}', 0)));
        let s0 = if before.len() > 0 {
            put(st, before)
        } else {
            st
        };
        close_braces(s0, count_char(tr, '}'), 0, c)
    }
}

/// The lines of a multi-close token from `rest` on.
pub open spec fn multi_close_lines(st: EmitState, rest: Seq<char>, c: Config) -> EmitState
    decreases rest.len(),
{
    let k = find_from(rest, '\n', 0);
    let more = 0 <= k < rest.len();
    let s1 = multi_close_line(st, rest.take(k), c);
    if more {
        multi_close_lines(s1, rest.skip(k + 1), c)
    } else {
        s1
    }
}

/// A token that closes several blocks at once: the content before the braces (commas and
/// the like), then each brace one level up on a line of its own.
pub open spec fn multi_close(st: EmitState, text: Seq<char>, c: Config) -> EmitState {
    multi_close_lines(st, text, c)
}

/// A parenthesized block's `(` or `)`: one level deeper or up, with a line break, when the
/// token holds a newline.
pub open spec fn paren_block(st: EmitState, text: Seq<char>, c: Config) -> EmitState {
    let tr = trim(text);
    let nl = text.contains('\n');
    if tr == seq!['('] {
        if nl {
            let s1 = with_indent(st, add_sat(st.indent, 1));
            put(s1, seq!['(', '\n'] + indent_of(s1.indent, c))
        } else {
            put(st, seq!['('])
        }
    } else if tr == seq![')'] {
        if nl {
            let s1 = with_indent(st, sub_sat(st.indent, 1));
            put(s1, seq!['\n'] + indent_of(s1.indent, c) + seq![')'])
        } else {
            put(st, seq![')'])
        }
    } else {
        put(st, text)
    }
}

/// A block or closure token at position `i`.
pub open spec fn block_token(st: EmitState, toks: Seq<TokenView>, c: Config, i: int) -> EmitState {
    let t = toks[i];
    let tr = trim(t.text);
    let nl = t.text.contains('\n');
    if starts_with(tr, '{') || ends_with(tr, '}') {
        if !starts_with(tr, '{') && count_char(tr, '}') > 1 {
            multi_close(st, t.text, c)
        } else if starts_with(tr, '{') && ends_with(tr, '}') {
            complete_block(st, tr, nl, c)
        } else if starts_with(tr, '{') {
            block_open(st, toks, c, i, tr, nl)
        } else {
            block_close(st, nl, c)
        }
    } else if starts_with(tr, '(') || ends_with(tr, ')') {
        paren_block(st, t.text, c)
    } else {
        put(st, t.text)
    }
}

/// Appends `n` spaces to `r`.
fn push_spaces(r: &mut Vec<char>, n: usize)
    ensures
        final(r)@ == old(r)@ + spaces(n as nat),
{
    let mut s: usize = 0;
    while s < n
        invariant
            s <= n,
            r@ == old(r)@ + spaces(s as nat),
        decreases n - s,
    {
        proof {
            assert(spaces((s + 1) as nat) == spaces(s as nat) + seq![' ']);
        }
        r.push(' ');
        s = s + 1;
    }
}

/// The indentation of level `level`, one level deeper where `deeper`.
fn indent_chars(level: usize, deeper: bool, c: &Config) -> (r: Vec<char>)
    ensures
        r@ == indent_of((level + if deeper { 1int } else { 0int }) as nat, *c),
{
    let mut r: Vec<char> = Vec::new();
    let mut l: usize = 0;
    while l < level
        invariant
            l <= level,
            r@ == spaces((l * c.indent_width) as nat),
        decreases level - l,
    {
        push_spaces(&mut r, c.indent_width);
        proof {
            assert((l + 1) * c.indent_width == l * c.indent_width + c.indent_width)
                by (nonlinear_arith);
            assert(r@ == spaces(((l + 1) * c.indent_width) as nat));
        }
        l = l + 1;
    }
    if deeper {
        push_spaces(&mut r, c.indent_width);
        proof {
            assert((level + 1) * c.indent_width == level * c.indent_width + c.indent_width)
                by (nonlinear_arith);
            assert(r@ == spaces(((level + 1) * c.indent_width) as nat));
        }
    }
    r
}

/// What one line contributes to `body_lines`, `tr` being its trimmed text.
pub open spec fn line_piece(tr: Seq<char>, pre: Seq<char>, started: bool) -> Seq<char> {
    if tr.len() == 0 {
        Seq::empty()
    } else {
        (if started {
            seq!['\n']
        } else {
            Seq::empty()
        }) + pre + tr
    }
}

/// Writes what one line contributes to `body_lines`.
fn put_piece(e: &mut Emitter, tr: &Vec<char>, pre: &Vec<char>, started: bool)
    requires
        old(e).wf(),
    ensures
        final(e).wf(),
        final(e).state() == put(old(e).state(), line_piece(tr@, pre@, started)),
{
    let ghost s = e.state();
    if tr.len() > 0 {
        if started {
            e.put_char('\n');
        }
        let ghost s1 = e.state();
        e.put_all(pre);
        e.put_all(tr);
        proof {
            lemma_put_put(s1, pre@, tr@);
            if started {
                lemma_put_put(s, seq!['\n'], pre@ + tr@);
                assert(seq!['\n'] + (pre@ + tr@) == seq!['\n'] + pre@ + tr@);
            } else {
                assert(Seq::<char>::empty() + pre@ + tr@ == pre@ + tr@);
            }
        }
    } else {
        assert(s.out + Seq::<char>::empty() == s.out);
    }
}

/// Writes the non-empty lines of `body`, trimmed, each after `pre`, separated by line
/// breaks.
fn put_body_lines(e: &mut Emitter, body: &Vec<char>, pre: &Vec<char>)
    requires
        old(e).wf(),
    ensures
        final(e).wf(),
        final(e).state() == put(old(e).state(), body_lines(body@, pre@, false)),
{
    let ghost st0 = e.state();
    let mut p: usize = 0;
    let mut started = false;
    proof {
        assert(body@.skip(0) == body@);
    }
    loop
        invariant_except_break
            p <= body.len(),
            e.wf(),
            put(st0, body_lines(body@, pre@, false)) == put(
                e.state(),
                body_lines(body@.skip(p as int), pre@, started),
            ),
        ensures
            e.wf(),
            put(st0, body_lines(body@, pre@, false)) == e.state(),
        decreases body.len() - p,
    {
        let k = line_end(body, p);
        let more = k < body.len();
        let tr = trim_of(&slice(body, p, k));
        let ghost s = e.state();
        let ghost piece = line_piece(tr@, pre@, started);
        put_piece(e, &tr, pre, started);
        if !more {
            break;
        }
        proof {
            lemma_put_put(s, piece, body_lines(body@.skip(k + 1), pre@, started || tr@.len() > 0));
        }
        started = started || tr.len() > 0;
        p = k + 1;
    }
}

/// Lays out a whole block in one token; `tr` is its trimmed text.
fn complete_block_exec(e: &mut Emitter, tr: &Vec<char>, nl: bool, c: &Config)
    requires
        old(e).wf(),
        starts_with(tr@, '{'),
        ends_with(tr@, '}'),
    ensures
        final(e).wf(),
        final(e).state() == complete_block(old(e).state(), tr@, nl, *c),
{
    let ghost st = e.state();
    let inner = slice(tr, 1, tr.len() - 1);
    let split = closure_params(&inner);
    let mut open: Vec<char> = Vec::new();
    open.push('{');
    let body = match split {
        Some((p, r)) => {
            crate::text::push_all(&mut open, &p);
            r
        },
        None => inner.clone(),
    };
    proof {
        match closure_split(inner@) {
            Some((p, r)) => {
                assert(open@ == seq!['{'] + p);
            },
            None => {
                assert(open@ == seq!['{']);
            },
        }
    }
    let bt = trim_of(&body);
    if bt.len() == 0 {
        let mut w = open;
        w.push(' ');
        w.push('}');
        proof {
            assert(w@ == open@ + seq![' ', '}']);
        }
        e.put_all(&w);
    } else if nl || contains_char(&body, '\n') {
        let level = e.indent;
        let pre = indent_chars(level, true, c);
        let close = indent_chars(level, false, c);
        e.put_all(&open);
        e.put_char('\n');
        let ghost s2 = e.state();
        put_body_lines(e, &body, &pre);
        e.put_char('\n');
        e.put_all(&close);
        e.put_char('}');
        proof {
            let bl = body_lines(body@, pre@, false);
            lemma_put_put(st, open@, seq!['\n']);
            lemma_put_put(st, open@ + seq!['\n'], bl);
            lemma_put_put(st, open@ + seq!['\n'] + bl, seq!['\n']);
            lemma_put_put(st, open@ + seq!['\n'] + bl + seq!['\n'], close@);
            lemma_put_put(st, open@ + seq!['\n'] + bl + seq!['\n'] + close@, seq!['}']);
        }
    } else {
        let mut w = open;
        w.push(' ');
        crate::text::push_all(&mut w, &bt);
        w.push(' ');
        w.push('}');
        proof {
            assert(w@ == open@ + seq![' '] + bt@ + seq![' ', '}']);
        }
        e.put_all(&w);
    }
}

/// Lays out an opening brace at token `i`; `tr` is its trimmed text.
fn block_open_exec(
    e: &mut Emitter,
    toks: &Vec<Token>,
    c: &Config,
    i: usize,
    tr: &Vec<char>,
    nl: bool,
)
    requires
        old(e).wf(),
        i < toks.len(),
        starts_with(tr@, '{'),
    ensures
        final(e).wf(),
        final(e).state() == block_open(old(e).state(), views(toks@), *c, i as int, tr@, nl),
{
    let ghost st = e.state();
    let (est, inl) = estimate_width(toks, i + 1, BracketClass::Block);
    let force = nl || inl || est > c.max_width;
    let after = slice(tr, 1, tr.len());
    proof {
        assert(after@ == tr@.skip(1));
    }
    let split = closure_params(&after);
    let mut open: Vec<char> = Vec::new();
    open.push('{');
    let rest = match split {
        Some((p, r)) => {
            crate::text::push_all(&mut open, &p);
            r
        },
        None => after.clone(),
    };
    proof {
        match closure_split(after@) {
            Some((p, r)) => {
                assert(open@ == seq!['{'] + p);
            },
            None => {
                assert(open@ == seq!['{']);
            },
        }
    }
    e.indent_add(1);
    let ghost s1 = e.state();
    let level = e.indent;
    let ind = indent_chars(level, false, c);
    if force {
        let rt = trim_of(&rest);
        e.put_all(&open);
        e.put_char('\n');
        if rt.len() == 0 {
            e.put_all(&ind);
            proof {
                lemma_put_put(s1, open@, seq!['\n']);
                lemma_put_put(s1, open@ + seq!['\n'], ind@);
            }
        } else {
            put_body_lines(e, &rt, &ind);
            e.put_char('\n');
            e.put_all(&ind);
            proof {
                let bl = body_lines(rt@, ind@, false);
                lemma_put_put(s1, open@, seq!['\n']);
                lemma_put_put(s1, open@ + seq!['\n'], bl);
                lemma_put_put(s1, open@ + seq!['\n'] + bl, seq!['\n']);
                lemma_put_put(s1, open@ + seq!['\n'] + bl + seq!['\n'], ind@);
            }
        }
    } else {
        e.put_all(&open);
        e.put_char(' ');
        proof {
            lemma_put_put(s1, open@, seq![' ']);
        }
    }
}

/// Lays out a closing brace.
fn block_close_exec(e: &mut Emitter, nl: bool, c: &Config)
    requires
        old(e).wf(),
    ensures
        final(e).wf(),
        final(e).state() == block_close(old(e).state(), nl, *c),
{
    e.indent_sub(1);
    let ghost s1 = e.state();
    if nl {
        e.put_break(c);
        e.put_char('}');
        proof {
            lemma_put_put(s1, seq!['\n'] + indent_of(s1.indent, *c), seq!['}']);
        }
    } else {
        e.put_char(' ');
        e.put_char('}');
        proof {
            lemma_put_put(s1, seq![' '], seq!['}']);
            assert(seq![' '] + seq!['}'] == seq![' ', '}']);
        }
    }
}

/// Lays out one line of a multi-close token.
fn multi_close_line_exec(e: &mut Emitter, line: &Vec<char>, c: &Config)
    requires
        old(e).wf(),
    ensures
        final(e).wf(),
        final(e).state() == multi_close_line(old(e).state(), line@, *c),
{
    let tr = trim_of(line);
    if tr.len() == 0 {
        return;
    }
    let p = find_char(&tr, '}', 0);
    proof {
        lemma_find_from_bounds(tr@, '}', 0);
    }
    let before = trim_of(&slice(&tr, 0, p));
    if before.len() > 0 {
        e.put_all(&before);
    }
    let n = count_of(&tr, '}');
    let ghost s0 = e.state();
    let mut j: usize = 0;
    while j < n
        invariant
            j <= n,
            e.wf(),
            close_braces(s0, n as nat, 0, *c) == close_braces(e.state(), n as nat, j as nat, *c),
        decreases n - j,
    {
        e.indent_sub(1);
        e.put_break(c);
        e.put_char('}');
        j = j + 1;
    }
}

/// Lays out a token that closes several blocks at once.
fn multi_close_exec(e: &mut Emitter, text: &Vec<char>, c: &Config)
    requires
        old(e).wf(),
    ensures
        final(e).wf(),
        final(e).state() == multi_close(old(e).state(), text@, *c),
{
    let ghost st0 = e.state();
    let mut p: usize = 0;
    proof {
        assert(text@.skip(0) == text@);
    }
    loop
        invariant_except_break
            p <= text.len(),
            e.wf(),
            multi_close(st0, text@, *c) == multi_close_lines(e.state(), text@.skip(p as int), *c),
        ensures
            e.wf(),
            multi_close(st0, text@, *c) == e.state(),
        decreases text.len() - p,
    {
        let k = line_end(text, p);
        let more = k < text.len();
        let line = slice(text, p, k);
        multi_close_line_exec(e, &line, c);
        if !more {
            break;
        }
        p = k + 1;
    }
}

/// Lays out a parenthesized block's token.
fn paren_block_exec(e: &mut Emitter, text: &Vec<char>, c: &Config)
    requires
        old(e).wf(),
    ensures
        final(e).wf(),
        final(e).state() == paren_block(old(e).state(), text@, *c),
{
    let tr = trim_of(text);
    let nl = contains_char(text, '\n');
    if is_char(&tr, '(') {
        if nl {
            e.indent_add(1);
            let ghost s1 = e.state();
            e.put_char('(');
            e.put_break(c);
            proof {
                lemma_put_put(s1, seq!['('], seq!['\n'] + indent_of(s1.indent, *c));
                assert(seq!['('] + (seq!['\n'] + indent_of(s1.indent, *c)) == seq!['(', '\n']
                    + indent_of(s1.indent, *c));
            }
        } else {
            e.put_char('(');
        }
    } else if is_char(&tr, ')') {
        if nl {
            e.indent_sub(1);
            let ghost s1 = e.state();
            e.put_break(c);
            e.put_char(')');
            proof {
                lemma_put_put(s1, seq!['\n'] + indent_of(s1.indent, *c), seq![')']);
            }
        } else {
            e.put_char(')');
        }
    } else {
        e.put_all(text);
    }
}

/// Lays out the block or closure token at position `i`.
pub(crate) fn block_token_exec(e: &mut Emitter, toks: &Vec<Token>, c: &Config, i: usize)
    requires
        old(e).wf(),
        i < toks.len(),
    ensures
        final(e).wf(),
        final(e).state() == block_token(old(e).state(), views(toks@), *c, i as int),
{
    let t = &toks[i];
    assert(views(toks@)[i as int] == t@);
    let tr = trim_of(&t.text);
    let nl = contains_char(&t.text, '\n');
    let open = starts_with_char(&tr, '{');
    let close = ends_with_char(&tr, '}');
    if open || close {
        if !open && count_of(&tr, '}') > 1 {
            multi_close_exec(e, &t.text, c);
        } else if open && close {
            complete_block_exec(e, &tr, nl, c);
        } else if open {
            block_open_exec(e, toks, c, i, &tr, nl);
        } else {
            block_close_exec(e, nl, c);
        }
    } else if starts_with_char(&tr, '(') || ends_with_char(&tr, ')') {
        paren_block_exec(e, &t.text, c);
    } else {
        e.put_all(&t.text);
    }
}

} // verus!
