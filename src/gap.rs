//! The text between two tokens: whitespace, comments, stray punctuation, and the braces and
//! commas that the analyzer leaves outside its tokens.
use vstd::prelude::*;

use crate::config::Config;
use crate::layout::{
    add_sat, break_line, indent_of, lemma_put_put, put, sub_sat, with_indent, EmitState, Emitter,
};
use crate::text::{
    contains_char, count_char, count_of, ends_with, ends_with_char, find_char, find_from, is_char,
    is_whitespace, is_ws, lemma_find_from_bounds, line_end, push_all, slice, trim, trim_of,
};

verus! {

/// A comma at `i` ends a line of `g`.
pub open spec fn comma_break_at(g: Seq<char>, i: int) -> bool {
    0 <= i && i + 1 < g.len() && g[i] == ',' && (g[i + 1] == '\n' || (g[i + 1] == '\r' && i + 2
        < g.len() && g[i + 2] == '\n'))
}

/// Some line of `g` ends with a comma.
pub open spec fn has_comma_break(g: Seq<char>) -> bool {
    exists|i: int| comma_break_at(g, i)
}

/// One line of a structural gap; `need` says that a line break is owed before the next
/// content, `blank` that a blank line was met since the last content. Gives the new state
/// and the new `need` and `blank`.
pub open spec fn structural_line(
    st: EmitState,
    line: Seq<char>,
    first: bool,
    last: bool,
    need: bool,
    blank: bool,
    c: Config,
) -> (EmitState, bool, bool) {
    let tr = trim(line);
    let opens = count_char(tr, '{');
    let closes = count_char(tr, '}');
    if tr.len() == 0 {
        (
            st,
            if !last {
                true
            } else {
                need
            },
            if !first && !last {
                true
            } else {
                blank
            },
        )
    } else if first {
        if tr == seq![','] {
            (put(st, seq![',']), true, false)
        } else if ends_with(tr, '{') {
            (with_indent(put(st, seq![' '] + tr), add_sat(st.indent, opens)), true, false)
        } else {
            (
                with_indent(
                    put(st, seq![' '] + tr),
                    sub_sat(add_sat(st.indent, opens), closes),
                ),
                true,
                false,
            )
        }
    } else {
        let s0 = if need {
            put(
                st,
                if blank {
                    seq!['\n', '\n']
                } else {
                    seq!['\n']
                },
            )
        } else {
            st
        };
        let s1 = if tr == seq!['}'] {
            let s = with_indent(s0, sub_sat(s0.indent, 1));
            put(s, indent_of(s.indent, c) + tr)
        } else {
            with_indent(
                put(s0, indent_of(s0.indent, c) + tr),
                sub_sat(add_sat(s0.indent, opens), closes),
            )
        };
        (s1, !last, false)
    }
}

/// The lines of a structural gap from `rest` on.
pub open spec fn structural_lines(
    st: EmitState,
    rest: Seq<char>,
    first: bool,
    need: bool,
    blank: bool,
    c: Config,
) -> (EmitState, bool, bool)
    decreases rest.len(),
{
    let k = find_from(rest, '\n', 0);
    let more = 0 <= k < rest.len();
    let (s1, n1, b1) = structural_line(st, rest.take(k), first, !more, need, blank, c);
    if more {
        structural_lines(s1, rest.skip(k + 1), false, n1, b1, c)
    } else {
        (s1, n1, b1)
    }
}

/// A gap that holds a newline and braces, or a comma that ends a line: its lines are laid
/// out one by one, braces move the indentation, blank lines between them shrink to one, and
/// the gap ends with a line break where one is owed, or with a space after content.
pub open spec fn structural_gap(st: EmitState, g: Seq<char>, c: Config) -> EmitState {
    let (s1, need, blank) = structural_lines(st, g, true, false, false, c);
    if need {
        break_after_blank(s1, blank, c)
    } else if g.len() > 0 && !is_ws(g.last()) && g.last() != '{' {
        put(s1, seq![' '])
    } else {
        s1
    }
}

proof fn lemma_structural_lines_interp(
    st: EmitState,
    rest: Seq<char>,
    first: bool,
    need: bool,
    blank: bool,
    c: Config,
)
    ensures
        structural_lines(st, rest, first, need, blank, c).0.interp == st.interp,
    decreases rest.len(),
{
    let k = find_from(rest, '\n', 0);
    let more = 0 <= k < rest.len();
    let (s1, n1, b1) = structural_line(st, rest.take(k), first, !more, need, blank, c);
    if more {
        lemma_structural_lines_interp(s1, rest.skip(k + 1), false, n1, b1, c);
    }
}

proof fn lemma_general_lines_interp(
    st: EmitState,
    rest: Seq<char>,
    first: bool,
    blank: bool,
    c: Config,
)
    ensures
        general_lines(st, rest, first, blank, c).interp == st.interp,
    decreases rest.len(),
{
    let k = find_from(rest, '\n', 0);
    let more = 0 <= k < rest.len();
    let (s1, b1) = general_line(st, rest.take(k), first, !more, blank, c);
    if more {
        lemma_general_lines_interp(s1, rest.skip(k + 1), false, b1, c);
    }
}

/// Laying out a gap leaves the string-interpolation depth as it is.
pub proof fn lemma_gap_keeps_interp(st: EmitState, g: Seq<char>, c: Config)
    ensures
        gap(st, g, c).interp == st.interp,
{
    lemma_structural_lines_interp(st, g, true, false, false, c);
    lemma_general_lines_interp(st, g, true, false, c);
}

/// Lays out one line of a structural gap.
fn structural_line_exec(
    e: &mut Emitter,
    line: &Vec<char>,
    first: bool,
    last: bool,
    need: bool,
    blank: bool,
    c: &Config,
) -> (r: (bool, bool))
    requires
        old(e).wf(),
    ensures
        final(e).wf(),
        (final(e).state(), r.0, r.1) == structural_line(
            old(e).state(),
            line@,
            first,
            last,
            need,
            blank,
            *c,
        ),
{
    let ghost st = e.state();
    let tr = trim_of(line);
    if tr.len() == 0 {
        return (
            if !last {
                true
            } else {
                need
            },
            if !first && !last {
                true
            } else {
                blank
            },
        );
    }
    let opens = count_of(&tr, '{');
    let closes = count_of(&tr, '}');
    if first {
        if is_char(&tr, ',') {
            e.put_char(',');
            return (true, false);
        }
        e.put_char(' ');
        e.put_all(&tr);
        proof {
            lemma_put_put(st, seq![' '], tr@);
        }
        if ends_with_char(&tr, '{') {
            e.indent_add(opens);
            return (true, false);
        }
        e.indent_add(opens);
        e.indent_sub(closes);
        return (true, false);
    }
    if need {
        e.put_char('\n');
        if blank {
            e.put_char('\n');
            proof {
                lemma_put_put(st, seq!['\n'], seq!['\n']);
                assert(seq!['\n'] + seq!['\n'] == seq!['\n', '\n']);
            }
        }
    }
    let ghost s0 = e.state();
    if is_char(&tr, '}') {
        e.indent_sub(1);
        let ghost s = e.state();
        let l = e.indent;
        e.put_indent_of(l, c);
        e.put_all(&tr);
        proof {
            lemma_put_put(s, indent_of(l as nat, *c), tr@);
        }
    } else {
        let l = e.indent;
        e.put_indent_of(l, c);
        e.put_all(&tr);
        proof {
            lemma_put_put(s0, indent_of(l as nat, *c), tr@);
        }
        e.indent_add(opens);
        e.indent_sub(closes);
    }
    (!last, false)
}

/// Lays out a structural gap.
fn structural_gap_exec(e: &mut Emitter, g: &Vec<char>, c: &Config)
    requires
        old(e).wf(),
    ensures
        final(e).wf(),
        final(e).state() == structural_gap(old(e).state(), g@, *c),
{
    let ghost st0 = e.state();
    let mut p: usize = 0;
    let mut first = true;
    let mut need = false;
    let mut blank = false;
    proof {
        assert(g@.skip(0) == g@);
    }
    loop
        invariant_except_break
            p <= g.len(),
            e.wf(),
            structural_lines(st0, g@, true, false, false, *c) == structural_lines(
                e.state(),
                g@.skip(p as int),
                first,
                need,
                blank,
                *c,
            ),
        ensures
            e.wf(),
            structural_lines(st0, g@, true, false, false, *c) == (e.state(), need, blank),
        decreases g.len() - p,
    {
        let k = line_end(g, p);
        let line = slice(g, p, k);
        let more = k < g.len();
        let (n, b) = structural_line_exec(e, &line, first, !more, need, blank, c);
        need = n;
        blank = b;
        if !more {
            break;
        }
        p = k + 1;
        first = false;
    }
    if need {
        break_after_blank_exec(e, blank, c);
    } else if g.len() > 0 && !is_whitespace(g[g.len() - 1]) && g[g.len() - 1] != '{' {
        e.put_char(' ');
    }
}

/// What a line of a general gap writes after the line break that leads to it: its trimmed
/// text `tr`; the text before a comment set off by a space; a space in front where it is the
/// first line and stands apart from the previous token; a space after where it is the last
/// line, stands apart from the next token and does not end with `.`.
pub open spec fn line_body(line: Seq<char>, tr: Seq<char>, first: bool, last: bool) -> Seq<char> {
    let h = find_from(tr, '#', 0);
    let lead = if first && line.len() > 0 && is_ws(line[0]) {
        seq![' ']
    } else {
        Seq::empty()
    };
    if h < tr.len() {
        let before = trim(tr.take(h));
        if before.len() > 0 {
            (if first {
                seq![' ']
            } else {
                Seq::empty()
            }) + before + seq![' '] + tr.skip(h)
        } else {
            lead + tr.skip(h)
        }
    } else {
        lead + tr + if last && !ends_with(tr, '.') && line.len() > 0 && is_ws(line.last()) {
            seq![' ']
        } else {
            Seq::empty()
        }
    }
}

/// A line break that keeps one blank line before it where `blank`.
pub open spec fn break_after_blank(st: EmitState, blank: bool, c: Config) -> EmitState {
    break_line(
        put(
            st,
            if blank {
                seq!['\n']
            } else {
                Seq::empty()
            },
        ),
        c,
    )
}

/// One line of a general gap; `blank` says that a blank line was met since the last content.
/// A line with content after the first starts on a new line, after one blank line where one
/// was met. Gives the new state and the new `blank`.
pub open spec fn general_line(
    st: EmitState,
    line: Seq<char>,
    first: bool,
    last: bool,
    blank: bool,
    c: Config,
) -> (EmitState, bool) {
    let tr = trim(line);
    if tr.len() == 0 {
        (st, if !first && !last { true } else { blank })
    } else {
        let s0 = if first {
            st
        } else {
            break_after_blank(st, blank, c)
        };
        (put(s0, line_body(line, tr, first, last)), false)
    }
}

/// The lines of a general gap from `rest` on.
pub open spec fn general_lines(
    st: EmitState,
    rest: Seq<char>,
    first: bool,
    blank: bool,
    c: Config,
) -> EmitState
    decreases rest.len(),
{
    let k = find_from(rest, '\n', 0);
    let more = 0 <= k < rest.len();
    let (s1, b1) = general_line(st, rest.take(k), first, !more, blank, c);
    if more {
        general_lines(s1, rest.skip(k + 1), false, b1, c)
    } else if trim(rest.take(k)).len() == 0 {
        break_after_blank(s1, b1, c)
    } else {
        s1
    }
}

/// A gap with a newline but no structure: the first line stays on the previous token's line,
/// every later line with content (a comment, stray punctuation) starts a new indented line,
/// blank lines between them shrink to one, and where the gap ends with a line break the next
/// token starts a new indented line too.
pub open spec fn general_gap(st: EmitState, g: Seq<char>, c: Config) -> EmitState {
    general_lines(st, g, true, false, c)
}

/// The gap `g` before a token: nothing for an empty gap; without a newline, one space, or its
/// trimmed content between spaces; else the structural or the general procedure.
pub open spec fn gap(st: EmitState, g: Seq<char>, c: Config) -> EmitState {
    if g.len() == 0 {
        st
    } else if !g.contains('\n') {
        if trim(g).len() == 0 {
            put(st, seq![' '])
        } else {
            put(st, seq![' '] + trim(g) + seq![' '])
        }
    } else if g.contains('{') || g.contains('}') || has_comma_break(g) {
        structural_gap(st, g, c)
    } else {
        general_gap(st, g, c)
    }
}

/// What a line of a general gap writes after the line break that leads to it.
fn line_body_exec(line: &Vec<char>, tr: &Vec<char>, first: bool, last: bool) -> (r: Vec<char>)
    ensures
        r@ == line_body(line@, tr@, first, last),
{
    let h = find_char(tr, '#', 0);
    proof {
        lemma_find_from_bounds(tr@, '#', 0);
    }
    let lead = first && line.len() > 0 && is_whitespace(line[0]);
    let mut r: Vec<char> = Vec::new();
    if h < tr.len() {
        let before = trim_of(&slice(tr, 0, h));
        let comment = slice(tr, h, tr.len());
        if before.len() > 0 {
            if first {
                r.push(' ');
            }
            push_all(&mut r, &before);
            r.push(' ');
            push_all(&mut r, &comment);
            proof {
                let f = if first {
                    seq![' ']
                } else {
                    Seq::<char>::empty()
                };
                assert(r@ == f + before@ + seq![' '] + comment@);
            }
        } else {
            if lead {
                r.push(' ');
            }
            push_all(&mut r, &comment);
            proof {
                let l = if lead {
                    seq![' ']
                } else {
                    Seq::<char>::empty()
                };
                assert(r@ == l + comment@);
            }
        }
    } else {
        if lead {
            r.push(' ');
        }
        push_all(&mut r, tr);
        let tail = last && !ends_with_char(tr, '.') && line.len() > 0 && is_whitespace(
            line[line.len() - 1],
        );
        if tail {
            r.push(' ');
        }
        proof {
            let l = if lead {
                seq![' ']
            } else {
                Seq::<char>::empty()
            };
            let t = if tail {
                seq![' ']
            } else {
                Seq::<char>::empty()
            };
            assert(r@ == l + tr@ + t);
        }
    }
    r
}

/// Writes a line break, after a blank line where `blank`.
fn break_after_blank_exec(e: &mut Emitter, blank: bool, c: &Config)
    requires
        old(e).wf(),
    ensures
        final(e).wf(),
        final(e).state() == break_after_blank(old(e).state(), blank, *c),
{
    if blank {
        e.put_char('\n');
    } else {
        assert(e.state().out + Seq::<char>::empty() == e.state().out);
    }
    e.put_break(c);
}

/// Lays out one line of a general gap.
fn general_line_exec(
    e: &mut Emitter,
    line: &Vec<char>,
    first: bool,
    last: bool,
    blank: bool,
    c: &Config,
) -> (r: bool)
    requires
        old(e).wf(),
    ensures
        final(e).wf(),
        (final(e).state(), r) == general_line(old(e).state(), line@, first, last, blank, *c),
{
    let tr = trim_of(line);
    if tr.len() == 0 {
        return if !first && !last {
            true
        } else {
            blank
        };
    }
    if !first {
        break_after_blank_exec(e, blank, c);
    }
    let body = line_body_exec(line, &tr, first, last);
    e.put_all(&body);
    false
}

/// Lays out a general gap.
fn general_gap_exec(e: &mut Emitter, g: &Vec<char>, c: &Config)
    requires
        old(e).wf(),
    ensures
        final(e).wf(),
        final(e).state() == general_gap(old(e).state(), g@, *c),
{
    let ghost st0 = e.state();
    let mut p: usize = 0;
    let mut first = true;
    let mut blank = false;
    proof {
        assert(g@.skip(0) == g@);
    }
    loop
        invariant_except_break
            p <= g.len(),
            e.wf(),
            general_gap(st0, g@, *c) == general_lines(
                e.state(),
                g@.skip(p as int),
                first,
                blank,
                *c,
            ),
        ensures
            e.wf(),
            general_gap(st0, g@, *c) == e.state(),
        decreases g.len() - p,
    {
        let k = line_end(g, p);
        let line = slice(g, p, k);
        let more = k < g.len();
        blank = general_line_exec(e, &line, first, !more, blank, c);
        if !more {
            if trim_of(&line).len() == 0 {
                break_after_blank_exec(e, blank, c);
            }
            break;
        }
        p = k + 1;
        first = false;
    }
}

/// Lays out the gap before a token.
pub(crate) fn gap_exec(e: &mut Emitter, g: &Vec<char>, c: &Config)
    requires
        old(e).wf(),
    ensures
        final(e).wf(),
        final(e).state() == gap(old(e).state(), g@, *c),
{
    if g.len() == 0 {
        return;
    }
    if !contains_char(g, '\n') {
        let t = trim_of(g);
        if t.len() == 0 {
            e.put_char(' ');
        } else {
            let ghost st = e.state();
            e.put_char(' ');
            e.put_all(&t);
            e.put_char(' ');
            proof {
                lemma_put_put(st, seq![' '], t@);
                lemma_put_put(st, seq![' '] + t@, seq![' ']);
            }
        }
        return;
    }
    if contains_char(g, '{') || contains_char(g, '}') || has_comma_break_exec(g) {
        structural_gap_exec(e, g, c);
    } else {
        general_gap_exec(e, g, c);
    }
}

/// Whether some line of `g` ends with a comma.
fn has_comma_break_exec(g: &Vec<char>) -> (r: bool)
    ensures
        r == has_comma_break(g@),
{
    let mut i: usize = 0;
    while i < g.len()
        invariant
            i <= g.len(),
            forall|j: int| 0 <= j < i ==> !comma_break_at(g@, j),
        decreases g.len() - i,
    {
        if g[i] == ',' && i + 1 < g.len() {
            if g[i + 1] == '\n' || (g[i + 1] == '\r' && i + 2 < g.len() && g[i + 2] == '\n') {
                assert(comma_break_at(g@, i as int));
                return true;
            }
        }
        i = i + 1;
    }
    false
}

} // verus!
