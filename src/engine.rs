//! The walk over the token vector: the gap before each token, then the token by its shape,
//! with string interpolations copied as written; and the final line end.
use vstd::prelude::*;

use crate::block::{
    block_token, block_token_exec, close_braces, multi_close_line, multi_close_lines,
};
use crate::collection::{collection_token, collection_token_exec};
use crate::config::Config;
use crate::gap::{
    gap, gap_exec, general_line, general_lines, structural_line, structural_lines,
};
use crate::layout::{
    add_sat, break_line, initial, lemma_put_put, put, sub_sat, with_indent, EmitState, Emitter,
};
use crate::quote::{canonical_quotes, canonical_quotes_chars};
use crate::text::{
    count_char, find_from, is_ws, lemma_skip_ws_back_bounds, skip_ws_back, starts_with,
    starts_with_char, trim, trim_end, trim_end_of, trim_of,
};
use crate::token::{views, Shape, Token, TokenView};

verus! {

/// A pipe at token `i`: `|` with a space before it unless its gap wrote one, and a space
/// after it unless the next token's gap will write one.
pub open spec fn pipe_token(st: EmitState, toks: Seq<TokenView>, i: int) -> EmitState {
    let lead = toks[i].gap.len() == 0;
    let next = i + 1 < toks.len() && toks[i + 1].gap.len() > 0;
    put(
        st,
        (if lead {
            seq![' ']
        } else {
            Seq::empty()
        }) + seq!['|'] + (if !next {
            seq![' ']
        } else {
            Seq::empty()
        }),
    )
}

/// A string-interpolation delimiter: written as it is; one that starts with `$` opens an
/// interpolation, any other closes one.
pub open spec fn interp_token(st: EmitState, text: Seq<char>) -> EmitState {
    let s = put(st, text);
    EmitState {
        interp: if starts_with(text, '$') {
            add_sat(st.interp, 1)
        } else {
            sub_sat(st.interp, 1)
        },
        ..s
    }
}

/// The token at position `i`, by its shape.
pub open spec fn token(st: EmitState, toks: Seq<TokenView>, c: Config, i: int) -> EmitState {
    let t = toks[i];
    match t.shape {
        Shape::StringInterpolation => interp_token(st, t.text),
        Shape::Block | Shape::Closure => block_token(st, toks, c, i),
        Shape::Pipe => pipe_token(st, toks, i),
        Shape::Record | Shape::List => collection_token(st, toks, c, i),
        Shape::String => put(st, canonical_quotes(t.text, c.quote_style)),
        _ => put(st, trim(t.text)),
    }
}

/// One step: the gap before token `i` and the token. Inside a string interpolation both are
/// copied as they are.
pub open spec fn step(st: EmitState, toks: Seq<TokenView>, c: Config, i: int) -> EmitState {
    let t = toks[i];
    if st.interp > 0 {
        if t.shape == Shape::StringInterpolation {
            interp_token(put(st, t.gap), t.text)
        } else {
            put(st, t.gap + t.text)
        }
    } else {
        token(gap(st, t.gap, c), toks, c, i)
    }
}

/// The steps for tokens `i` up to `j`, from state `st`.
pub open spec fn steps(toks: Seq<TokenView>, c: Config, i: int, j: int, st: EmitState) -> EmitState
    decreases j - i,
{
    if i < 0 || i >= j || i >= toks.len() {
        st
    } else {
        steps(toks, c, i + 1, j, step(st, toks, c, i))
    }
}

/// The steps from token `i` on.
pub open spec fn run(toks: Seq<TokenView>, c: Config, i: int, st: EmitState) -> EmitState {
    steps(toks, c, i, toks.len() as int, st)
}

/// The gaps and texts of tokens `i` up to `j`, as the source holds them.
pub open spec fn verbatim(toks: Seq<TokenView>, i: int, j: int) -> Seq<char>
    decreases j - i,
{
    if i < 0 || i >= j || i >= toks.len() {
        Seq::empty()
    } else {
        toks[i].gap + toks[i].text + verbatim(toks, i + 1, j)
    }
}

/// Inside a string interpolation the source is copied unchanged: where the interpolation
/// depth stays positive before each of the tokens `i` up to `j`, their steps write exactly
/// the source between the end of token `i - 1` and the end of token `j - 1`.
pub proof fn lemma_interpolation_verbatim(
    toks: Seq<TokenView>,
    c: Config,
    i: int,
    j: int,
    st: EmitState,
)
    requires
        0 <= i <= j <= toks.len(),
        forall|k: int| i <= k < j ==> (#[trigger] steps(toks, c, i, k, st)).interp > 0,
    ensures
        steps(toks, c, i, j, st).out == st.out + verbatim(toks, i, j),
    decreases j - i,
{
    if i < j {
        assert(steps(toks, c, i, i, st) == st);
        let s1 = step(st, toks, c, i);
        assert(s1.out == st.out + (toks[i].gap + toks[i].text));
        assert forall|k: int| i + 1 <= k < j implies (#[trigger] steps(toks, c, i + 1, k, s1)).interp
            > 0 by {
            lemma_steps_split(toks, c, i, k, st);
            assert(steps(toks, c, i, k, st) == steps(toks, c, i + 1, k, s1));
        }
        lemma_interpolation_verbatim(toks, c, i + 1, j, s1);
        lemma_steps_split(toks, c, i, j, st);
        assert(st.out + (toks[i].gap + toks[i].text) + verbatim(toks, i + 1, j) == st.out + (
        toks[i].gap + toks[i].text + verbatim(toks, i + 1, j)));
    } else {
        assert(st.out + Seq::<char>::empty() == st.out);
    }
}

/// An opening interpolation delimiter met outside any interpolation starts one: the tokens
/// after it are copied as [`lemma_interpolation_verbatim`] states, up to its closing one.
pub proof fn lemma_interpolation_opens(st: EmitState, toks: Seq<TokenView>, c: Config, i: int)
    requires
        0 <= i < toks.len(),
        st.interp == 0,
        toks[i].shape == Shape::StringInterpolation,
        starts_with(toks[i].text, '$'),
    ensures
        step(st, toks, c, i).interp == 1,
{
    crate::gap::lemma_gap_keeps_interp(st, toks[i].gap, c);
}

proof fn lemma_steps_split(toks: Seq<TokenView>, c: Config, i: int, j: int, st: EmitState)
    requires
        0 <= i < j <= toks.len(),
    ensures
        steps(toks, c, i, j, st) == steps(toks, c, i + 1, j, step(st, toks, c, i)),
{
}

/// The output `o` without trailing whitespace, ended by exactly one newline.
pub open spec fn finish(o: Seq<char>) -> Seq<char> {
    trim_end(o) + seq!['\n']
}

/// The text that the layout engine writes for the token vector `toks`.
pub open spec fn layout(toks: Seq<TokenView>, c: Config) -> Seq<char> {
    finish(run(toks, c, 0, initial()).out)
}

/// Every output ends with exactly one newline: its last character is a newline and the one
/// before, if any, is not.
pub proof fn lemma_single_final_newline(o: Seq<char>)
    ensures
        finish(o).len() >= 1,
        finish(o).last() == '\n',
        finish(o).len() >= 2 ==> finish(o)[finish(o).len() - 2] != '\n',
{
    lemma_skip_ws_back_bounds(o, o.len() as int);
}

/// Lays out the token at position `i`.
fn token_exec(e: &mut Emitter, toks: &Vec<Token>, c: &Config, i: usize)
    requires
        old(e).wf(),
        i < toks.len(),
    ensures
        final(e).wf(),
        final(e).state() == token(old(e).state(), views(toks@), *c, i as int),
{
    let t = &toks[i];
    assert(views(toks@)[i as int] == t@);
    match t.shape {
        Shape::StringInterpolation => interp_exec(e, &t.text),
        Shape::Block | Shape::Closure => block_token_exec(e, toks, c, i),
        Shape::Pipe => {
            let ghost st = e.state();
            let lead = t.gap_before.len() == 0;
            let next = i + 1 < toks.len() && toks[i + 1].gap_before.len() > 0;
            proof {
                if i + 1 < toks.len() {
                    assert(views(toks@)[i + 1] == toks@[i + 1]@);
                }
            }
            let mut w: Vec<char> = Vec::new();
            if lead {
                w.push(' ');
            }
            w.push('|');
            if !next {
                w.push(' ');
            }
            proof {
                let l = if lead {
                    seq![' ']
                } else {
                    Seq::<char>::empty()
                };
                let r = if !next {
                    seq![' ']
                } else {
                    Seq::<char>::empty()
                };
                assert(w@ == l + seq!['|'] + r);
            }
            e.put_all(&w);
        },
        Shape::Record | Shape::List => collection_token_exec(e, toks, c, i),
        Shape::String => {
            let q = canonical_quotes_chars(&t.text, c.quote_style);
            e.put_all(&q);
        },
        _ => {
            let tr = trim_of(&t.text);
            e.put_all(&tr);
        },
    }
}

/// Writes a string-interpolation delimiter and moves the interpolation depth.
fn interp_exec(e: &mut Emitter, text: &Vec<char>)
    requires
        old(e).wf(),
    ensures
        final(e).wf(),
        final(e).state() == interp_token(old(e).state(), text@),
{
    let depth = e.interp;
    e.put_all(text);
    if starts_with_char(text, '$') {
        e.set_interp(depth.saturating_add(1));
    } else {
        e.set_interp(depth.saturating_sub(1));
    }
}

/// Lays out the gap before token `i` and the token.
fn step_exec(e: &mut Emitter, toks: &Vec<Token>, c: &Config, i: usize)
    requires
        old(e).wf(),
        i < toks.len(),
    ensures
        final(e).wf(),
        final(e).state() == step(old(e).state(), views(toks@), *c, i as int),
{
    let ghost st = e.state();
    let t = &toks[i];
    assert(views(toks@)[i as int] == t@);
    if e.interp > 0 {
        e.put_all(&t.gap_before);
        if t.shape == Shape::StringInterpolation {
            interp_exec(e, &t.text);
        } else {
            e.put_all(&t.text);
            proof {
                lemma_put_put(st, t.gap_before@, t.text@);
            }
        }
    } else {
        gap_exec(e, &t.gap_before, c);
        token_exec(e, toks, c, i);
    }
}

/// Lays out a token vector: the engine's output, ended by exactly one newline.
pub fn layout_tokens(toks: &Vec<Token>, c: &Config) -> (r: Vec<char>)
    ensures
        r@ == layout(views(toks@), *c),
{
    let mut e = Emitter::new();
    let mut i: usize = 0;
    while i < toks.len()
        invariant
            i <= toks.len(),
            e.wf(),
            run(views(toks@), *c, 0, initial()) == steps(
                views(toks@),
                *c,
                i as int,
                toks.len() as int,
                e.state(),
            ),
        decreases toks.len() - i,
    {
        step_exec(&mut e, toks, c, i);
        i = i + 1;
    }
    let out = e.output();
    let mut r = trim_end_of(&out);
    r.push('\n');
    r
}

/// `a` stands unchanged at the start of `b`.
pub open spec fn keeps_prefix(a: Seq<char>, b: Seq<char>) -> bool {
    a.len() <= b.len() && forall|k: int| 0 <= k < a.len() ==> b[k] == a[k]
}

proof fn lemma_close_braces_grows(st: EmitState, n: nat, j: nat, c: Config)
    ensures
        keeps_prefix(st.out, close_braces(st, n, j, c).out),
    decreases n - j,
{
    if j < n {
        let s1 = break_line(with_indent(st, sub_sat(st.indent, 1)), c);
        let s2 = put(s1, seq!['}']);
        lemma_close_braces_grows(s2, n, j + 1, c);
    }
}

proof fn lemma_multi_close_lines_grows(st: EmitState, rest: Seq<char>, c: Config)
    ensures
        keeps_prefix(st.out, multi_close_lines(st, rest, c).out),
    decreases rest.len(),
{
    let k = find_from(rest, '\n', 0);
    let tr = trim(rest.take(k));
    let before = trim(tr.take(find_from(tr, '}', 0)));
    let s0 = if before.len() > 0 {
        put(st, before)
    } else {
        st
    };
    lemma_close_braces_grows(s0, count_char(tr, '}'), 0, c);
    let s1 = multi_close_line(st, rest.take(k), c);
    if 0 <= k < rest.len() {
        lemma_multi_close_lines_grows(s1, rest.skip(k + 1), c);
    }
}

proof fn lemma_structural_lines_grows(
    st: EmitState,
    rest: Seq<char>,
    first: bool,
    need: bool,
    blank: bool,
    c: Config,
)
    ensures
        keeps_prefix(st.out, structural_lines(st, rest, first, need, blank, c).0.out),
    decreases rest.len(),
{
    let k = find_from(rest, '\n', 0);
    let (s1, n1, b1) = structural_line(st, rest.take(k), first, !(0 <= k < rest.len()), need, blank, c);
    if 0 <= k < rest.len() {
        lemma_structural_lines_grows(s1, rest.skip(k + 1), false, n1, b1, c);
    }
}

proof fn lemma_general_lines_grows(st: EmitState, rest: Seq<char>, first: bool, blank: bool, c: Config)
    ensures
        keeps_prefix(st.out, general_lines(st, rest, first, blank, c).out),
    decreases rest.len(),
{
    let k = find_from(rest, '\n', 0);
    let (s1, b1) = general_line(st, rest.take(k), first, !(0 <= k < rest.len()), blank, c);
    if 0 <= k < rest.len() {
        lemma_general_lines_grows(s1, rest.skip(k + 1), false, b1, c);
    }
}

proof fn lemma_gap_grows(st: EmitState, g: Seq<char>, c: Config)
    ensures
        keeps_prefix(st.out, gap(st, g, c).out),
{
    lemma_structural_lines_grows(st, g, true, false, false, c);
    lemma_general_lines_grows(st, g, true, false, c);
}

proof fn lemma_block_token_grows(st: EmitState, toks: Seq<TokenView>, c: Config, i: int)
    requires
        0 <= i < toks.len(),
    ensures
        keeps_prefix(st.out, block_token(st, toks, c, i).out),
{
    lemma_multi_close_lines_grows(st, toks[i].text, c);
}

proof fn lemma_collection_token_grows(st: EmitState, toks: Seq<TokenView>, c: Config, i: int)
    requires
        0 <= i < toks.len(),
    ensures
        keeps_prefix(st.out, collection_token(st, toks, c, i).out),
{
}

proof fn lemma_token_grows(st: EmitState, toks: Seq<TokenView>, c: Config, i: int)
    requires
        0 <= i < toks.len(),
    ensures
        keeps_prefix(st.out, token(st, toks, c, i).out),
{
    match toks[i].shape {
        Shape::Block | Shape::Closure => lemma_block_token_grows(st, toks, c, i),
        Shape::Record | Shape::List => lemma_collection_token_grows(st, toks, c, i),
        _ => {},
    }
}

/// A step only appends to the output.
proof fn lemma_step_grows(st: EmitState, toks: Seq<TokenView>, c: Config, i: int)
    requires
        0 <= i < toks.len(),
    ensures
        keeps_prefix(st.out, step(st, toks, c, i).out),
{
    if st.interp == 0 {
        let s1 = gap(st, toks[i].gap, c);
        lemma_gap_grows(st, toks[i].gap, c);
        lemma_token_grows(s1, toks, c, i);
    }
}

proof fn lemma_steps_grow(toks: Seq<TokenView>, c: Config, a: int, e: int, st: EmitState)
    requires
        0 <= a <= e <= toks.len(),
    ensures
        keeps_prefix(st.out, steps(toks, c, a, e, st).out),
    decreases e - a,
{
    if a < e {
        lemma_step_grows(st, toks, c, a);
        lemma_steps_grow(toks, c, a + 1, e, step(st, toks, c, a));
    }
}

proof fn lemma_steps_compose(toks: Seq<TokenView>, c: Config, a: int, b: int, e: int, st: EmitState)
    requires
        0 <= a <= b <= e <= toks.len(),
    ensures
        steps(toks, c, a, e, st) == steps(toks, c, b, e, steps(toks, c, a, b, st)),
    decreases b - a,
{
    if a < b {
        lemma_steps_compose(toks, c, a + 1, b, e, step(st, toks, c, a));
    }
}

proof fn lemma_trim_end_keeps(o: Seq<char>, m: int, j: int)
    requires
        0 < m <= j <= o.len(),
        !is_ws(o[m - 1]),
    ensures
        skip_ws_back(o, j) >= m,
    decreases j,
{
    if j > m {
        lemma_trim_end_keeps(o, m, j - 1);
    }
}

/// What a string interpolation holds reaches the returned text unchanged: where the
/// interpolation depth stays positive before each of the tokens `i` up to `j` (the tokens
/// after an opening delimiter up to its closing one, which ends the stretch), the source
/// text of those tokens with their gaps stands unchanged in the layout.
pub proof fn lemma_interpolation_in_output(toks: Seq<TokenView>, c: Config, i: int, j: int)
    requires
        0 <= i <= j <= toks.len(),
        forall|k: int| i <= k < j ==> (#[trigger] steps(toks, c, 0, k, initial())).interp > 0,
        verbatim(toks, i, j).len() > 0,
        !is_ws(verbatim(toks, i, j).last()),
    ensures
        exists|p: int|
            0 <= p && p + verbatim(toks, i, j).len() <= layout(toks, c).len() && #[trigger] layout(
                toks,
                c,
            ).subrange(p, p + verbatim(toks, i, j).len()) == verbatim(toks, i, j),
{
    let v = verbatim(toks, i, j);
    let n = toks.len() as int;
    let si = steps(toks, c, 0, i, initial());
    assert forall|k: int| i <= k < j implies (#[trigger] steps(toks, c, i, k, si)).interp > 0 by {
        lemma_steps_compose(toks, c, 0, i, k, initial());
        assert(steps(toks, c, 0, k, initial()).interp > 0);
    }
    lemma_interpolation_verbatim(toks, c, i, j, si);
    lemma_steps_compose(toks, c, 0, i, j, initial());
    let sj = steps(toks, c, 0, j, initial());
    assert(sj.out == si.out + v);
    lemma_steps_compose(toks, c, 0, j, n, initial());
    lemma_steps_grow(toks, c, j, n, sj);
    let o = run(toks, c, 0, initial()).out;
    let p = si.out.len() as int;
    assert(keeps_prefix(sj.out, o));
    assert(o[p + v.len() - 1] == v.last());
    lemma_trim_end_keeps(o, p + v.len(), o.len() as int);
    lemma_skip_ws_back_bounds(o, o.len() as int);
    assert(layout(toks, c).subrange(p, p + v.len()) =~= v);
}

} // verus!
