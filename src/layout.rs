//! The layout engine: one pass over the token vector that writes the canonical text.
//!
//! The engine's state is an indentation level, a string-interpolation depth, the layout
//! chosen for each open record or list, and the output so far. Every rule is stated as a
//! spec function from state to state; the executable code is proved to follow them.
use vstd::prelude::*;

use crate::config::Config;
use crate::text::spaces;

verus! {

/// The engine's state between two steps.
pub ghost struct EmitState {
    /// Active indentation levels.
    pub indent: nat,
    /// Nesting depth of string interpolations.
    pub interp: nat,
    /// For each record or list still open, innermost last: whether it is laid out on
    /// several lines.
    pub stack: Seq<bool>,
    /// The output so far.
    pub out: Seq<char>,
}

/// `n + k`, saturating at the largest `usize`.
pub open spec fn add_sat(n: nat, k: nat) -> nat {
    if n + k > usize::MAX {
        usize::MAX as nat
    } else {
        n + k
    }
}

/// `n - k`, saturating at zero.
pub open spec fn sub_sat(n: nat, k: nat) -> nat {
    if n >= k {
        (n - k) as nat
    } else {
        0
    }
}

/// How many characters follow the last newline of `s`.
pub open spec fn line_pos(s: Seq<char>) -> nat
    decreases s.len(),
{
    if s.len() == 0 {
        0
    } else if s.last() == '\n' {
        0
    } else {
        line_pos(s.drop_last()) + 1
    }
}

/// The indentation of level `level`.
pub open spec fn indent_of(level: nat, c: Config) -> Seq<char> {
    spaces((level * c.indent_width) as nat)
}

/// `st` with `s` written.
pub open spec fn put(st: EmitState, s: Seq<char>) -> EmitState {
    EmitState { out: st.out + s, ..st }
}

/// `st` with a line break and the current indentation written.
pub open spec fn break_line(st: EmitState, c: Config) -> EmitState {
    put(st, seq!['\n'] + indent_of(st.indent, c))
}

/// `st` at indentation level `level`.
pub open spec fn with_indent(st: EmitState, level: nat) -> EmitState {
    EmitState { indent: level, ..st }
}

/// Writing `a` and then `b` is writing `a + b`.
pub proof fn lemma_put_put(st: EmitState, a: Seq<char>, b: Seq<char>)
    ensures
        put(put(st, a), b) == put(st, a + b),
{
    assert(st.out + a + b == st.out + (a + b));
}

proof fn lemma_line_pos_le(s: Seq<char>)
    ensures
        line_pos(s) <= s.len(),
    decreases s.len(),
{
    if s.len() > 0 {
        lemma_line_pos_le(s.drop_last());
    }
}

/// `st` with the innermost open record or list closed.
pub open spec fn pop_layout(st: EmitState) -> EmitState {
    EmitState {
        stack: if st.stack.len() > 0 {
            st.stack.drop_last()
        } else {
            st.stack
        },
        ..st
    }
}

/// The innermost open record or list was laid out on several lines.
pub open spec fn opener_multiline(st: EmitState) -> bool {
    st.stack.len() > 0 && st.stack.last()
}

/// The state at the start of a format call.
pub open spec fn initial() -> EmitState {
    EmitState { indent: 0, interp: 0, stack: Seq::empty(), out: Seq::empty() }
}

/// The engine's executable state.
pub(crate) struct Emitter {
    pub(crate) out: Vec<char>,
    pub(crate) col: usize,
    pub(crate) indent: usize,
    pub(crate) interp: usize,
    pub(crate) stack: Vec<bool>,
}

impl Emitter {
    /// The state that the engine holds.
    pub(crate) open spec fn state(&self) -> EmitState {
        EmitState {
            indent: self.indent as nat,
            interp: self.interp as nat,
            stack: self.stack@,
            out: self.out@,
        }
    }
}

impl Emitter {
    /// The column counter matches the output.
    pub(crate) open spec fn wf(&self) -> bool {
        self.col == line_pos(self.out@)
    }

    /// An engine at the start of a format call.
    pub(crate) fn new() -> (e: Emitter)
        ensures
            e.state() == initial(),
            e.wf(),
    {
        Emitter { out: Vec::new(), col: 0, indent: 0, interp: 0, stack: Vec::new() }
    }

    /// The current column: how many characters follow the last line break.
    pub(crate) fn column(&self) -> (r: usize)
        requires
            self.wf(),
        ensures
            r == line_pos(self.state().out),
    {
        self.col
    }

    /// The output written so far.
    pub(crate) fn output(self) -> (r: Vec<char>)
        ensures
            r@ == self.state().out,
    {
        self.out
    }

    /// Writes one character.
    pub(crate) fn put_char(&mut self, ch: char)
        requires
            old(self).wf(),
        ensures
            final(self).wf(),
            final(self).state() == put(old(self).state(), seq![ch]),
    {
        self.out.push(ch);
        proof {
            assert(self.out@.drop_last() == old(self).out@);
            assert(old(self).state().out + seq![ch] == self.out@);
        }
        let written = self.out.len();
        proof {
            lemma_line_pos_le(old(self).out@);
            assert(self.col < written);
        }
        if ch == '\n' {
            self.col = 0;
        } else {
            self.col = self.col + 1;
        }
    }

    /// Writes all of `s`.
    pub(crate) fn put_all(&mut self, s: &Vec<char>)
        requires
            old(self).wf(),
        ensures
            final(self).wf(),
            final(self).state() == put(old(self).state(), s@),
    {
        let mut i: usize = 0;
        while i < s.len()
            invariant
                i <= s.len(),
                self.wf(),
                self.state() == put(old(self).state(), s@.take(i as int)),
            decreases s.len() - i,
        {
            proof {
                assert(s@.take(i as int + 1) == s@.take(i as int) + seq![s@[i as int]]);
                lemma_put_put(old(self).state(), s@.take(i as int), seq![s@[i as int]]);
            }
            self.put_char(s[i]);
            i = i + 1;
        }
        proof {
            assert(s@.take(s.len() as int) == s@);
        }
    }

    /// Writes `n` spaces.
    fn put_spaces(&mut self, n: usize)
        requires
            old(self).wf(),
        ensures
            final(self).wf(),
            final(self).state() == put(old(self).state(), spaces(n as nat)),
    {
        let mut i: usize = 0;
        while i < n
            invariant
                i <= n,
                self.wf(),
                self.state() == put(old(self).state(), spaces(i as nat)),
            decreases n - i,
        {
            proof {
                assert(spaces((i + 1) as nat) == spaces(i as nat) + seq![' ']);
                lemma_put_put(old(self).state(), spaces(i as nat), seq![' ']);
            }
            self.put_char(' ');
            i = i + 1;
        }
    }

    /// Writes the indentation of level `level`.
    pub(crate) fn put_indent_of(&mut self, level: usize, c: &Config)
        requires
            old(self).wf(),
        ensures
            final(self).wf(),
            final(self).state() == put(old(self).state(), indent_of(level as nat, *c)),
    {
        let mut l: usize = 0;
        while l < level
            invariant
                l <= level,
                self.wf(),
                self.state() == put(old(self).state(), spaces((l * c.indent_width) as nat)),
            decreases level - l,
        {
            proof {
                assert((l + 1) * c.indent_width == l * c.indent_width + c.indent_width)
                    by (nonlinear_arith);
                assert(spaces(((l + 1) * c.indent_width) as nat) == spaces(
                    (l * c.indent_width) as nat,
                ) + spaces(c.indent_width as nat));
                lemma_put_put(
                    old(self).state(),
                    spaces((l * c.indent_width) as nat),
                    spaces(c.indent_width as nat),
                );
            }
            self.put_spaces(c.indent_width);
            l = l + 1;
        }
    }

    /// Writes a line break and the current indentation.
    pub(crate) fn put_break(&mut self, c: &Config)
        requires
            old(self).wf(),
        ensures
            final(self).wf(),
            final(self).state() == break_line(old(self).state(), *c),
    {
        self.put_char('\n');
        let level = self.indent;
        self.put_indent_of(level, c);
        proof {
            assert(old(self).state().out + seq!['\n'] + indent_of(level as nat, *c) == old(self).state().out + (
            seq!['\n'] + indent_of(level as nat, *c)));
        }
    }

    /// Records the layout chosen for a record or list that opens.
    pub(crate) fn push_layout(&mut self, multiline: bool)
        ensures
            final(self).wf() == old(self).wf(),
            final(self).state() == (EmitState {
                stack: old(self).state().stack.push(multiline),
                ..old(self).state()
            }),
    {
        self.stack.push(multiline);
    }

    /// Closes the innermost open record or list; tells whether it was laid out on several
    /// lines.
    pub(crate) fn pop_layout(&mut self) -> (r: bool)
        ensures
            final(self).wf() == old(self).wf(),
            final(self).state() == pop_layout(old(self).state()),
            r == opener_multiline(old(self).state()),
    {
        match self.stack.pop() {
            Some(b) => b,
            None => false,
        }
    }

    /// Sets the string-interpolation depth.
    pub(crate) fn set_interp(&mut self, depth: usize)
        ensures
            final(self).wf() == old(self).wf(),
            final(self).state() == (EmitState { interp: depth as nat, ..old(self).state() }),
    {
        self.interp = depth;
    }

    /// Raises the indentation by `k` levels, saturating.
    pub(crate) fn indent_add(&mut self, k: usize)
        ensures
            final(self).wf() == old(self).wf(),
            final(self).state() == with_indent(old(self).state(), add_sat(old(self).state().indent, k as nat)),
    {
        self.indent = self.indent.saturating_add(k);
    }

    /// Lowers the indentation by `k` levels, saturating at zero.
    pub(crate) fn indent_sub(&mut self, k: usize)
        ensures
            final(self).wf() == old(self).wf(),
            final(self).state() == with_indent(old(self).state(), sub_sat(old(self).state().indent, k as nat)),
    {
        self.indent = self.indent.saturating_sub(k);
    }
}

} // verus!
