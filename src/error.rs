//! The error that a format call reports: where the source does not parse, and why.
use vstd::prelude::*;

use crate::layout::{add_sat, sub_sat};
use crate::text::{
    chars_of, decimal, ends_with, find_from, push_all, push_decimal,
    spaces, string_of, trim_end, trim_end_of,
};
use crate::token::{
    byte_len, char_index, char_width, lemma_byte_len_step, lemma_char_index_skip,
};

verus! {

/// A place in the source, both numbers counted from 1.
#[derive(Clone, Copy, Debug, PartialEq, Eq, Structural)]
pub struct SourceLocation {
    /// The line, from 1.
    pub line: usize,
    /// The column, in characters, from 1.
    pub column: usize,
}

/// Why a format call failed.
#[derive(Debug)]
pub enum FormatError {
    /// The source does not parse.
    ParseError {
        /// The analyzer's message.
        message: String,
        /// The analyzer's hint on how to fix it, if any.
        help: Option<String>,
        /// Where the error lies, if that is inside the source.
        location: Option<SourceLocation>,
        /// The source line that holds the error.
        source_line: Option<String>,
    },
}

/// Line and column after reading `prefix` from the start of a source.
pub open spec fn location_after(prefix: Seq<char>) -> (nat, nat)
    decreases prefix.len(),
{
    if prefix.len() == 0 {
        (1, 1)
    } else {
        let (l, c) = location_after(prefix.drop_last());
        if prefix.last() == '\n' {
            (add_sat(l, 1), 1)
        } else {
            (l, add_sat(c, 1))
        }
    }
}

/// Line and column both stay between 1 and the largest `usize`.
pub proof fn lemma_location_bounds(prefix: Seq<char>)
    ensures
        1 <= location_after(prefix).0 <= usize::MAX,
        1 <= location_after(prefix).1 <= usize::MAX,
    decreases prefix.len(),
{
    if prefix.len() > 0 {
        lemma_location_bounds(prefix.drop_last());
    }
}

/// The place of byte offset `offset` in source `s`: lines and columns move over the
/// characters that start before it.
pub open spec fn location_at(s: Seq<char>, offset: int) -> SourceLocation {
    let (l, c) = location_after(s.take(char_index(s, offset)));
    SourceLocation { line: l as usize, column: c as usize }
}

/// `l` without a final carriage return.
pub open spec fn without_cr(l: Seq<char>) -> Seq<char> {
    if ends_with(l, '\r') {
        l.drop_last()
    } else {
        l
    }
}

/// Line `n` of `s`, counted from 0, as `str::lines` gives it; empty where there is none.
pub open spec fn nth_line(s: Seq<char>, n: nat) -> Seq<char>
    decreases s.len(),
{
    let k = find_from(s, '\n', 0);
    if n == 0 {
        if 0 <= k < s.len() {
            without_cr(s.take(k))
        } else {
            s
        }
    } else if 0 <= k < s.len() {
        nth_line(s.skip(k + 1), (n - 1) as nat)
    } else {
        Seq::empty()
    }
}

/// `d` right-aligned in three columns.
pub open spec fn pad3(d: Seq<char>) -> Seq<char> {
    if d.len() < 3 {
        spaces((3 - d.len()) as nat) + d
    } else {
        d
    }
}

/// The text of a parse error as users see it: `line:column: message`, then the source line
/// with a caret under the column, then the hint; without trailing whitespace.
pub open spec fn parse_error_text(
    message: Seq<char>,
    help: Option<Seq<char>>,
    location: Option<SourceLocation>,
    source_line: Option<Seq<char>>,
) -> Seq<char> {
    let head = match location {
        Some(l) => decimal(l.line as nat) + ":"@ + decimal(l.column as nat) + ": "@ + message
            + "\n"@,
        None => message + "\n"@,
    };
    let context = match (source_line, location) {
        (Some(s), Some(l)) => "  |\n"@ + pad3(decimal(l.line as nat)) + " | "@ + s + "\n"@
            + "  | "@ + spaces(sub_sat(l.column as nat, 1)) + "^\n"@,
        _ => Seq::empty(),
    };
    let tail = match help {
        Some(h) => "  = help: "@ + h,
        None => Seq::empty(),
    };
    trim_end(head + context + tail)
}

/// The view of an optional string.
pub open spec fn opt_view(o: Option<String>) -> Option<Seq<char>> {
    match o {
        Some(s) => Some(s@),
        None => None,
    }
}

impl FormatError {
    /// The error as users see it.
    pub fn to_string(&self) -> (r: String)
        ensures
            match self {
                FormatError::ParseError { message, help, location, source_line } => r@
                    == parse_error_text(message@, opt_view(*help), *location, opt_view(*source_line)),
            },
    {
        match self {
            FormatError::ParseError { message, help, location, source_line } => format_parse_error(
                message.as_str(),
                help,
                location,
                source_line,
            ),
        }
    }
}

/// Appends the characters of `s`.
fn push_str(out: &mut Vec<char>, s: &str)
    ensures
        final(out)@ == old(out)@ + s@,
{
    let v = chars_of(s);
    push_all(out, &v);
}

/// The text of a parse error as users see it.
pub fn format_parse_error(
    message: &str,
    help: &Option<String>,
    location: &Option<SourceLocation>,
    source_line: &Option<String>,
) -> (r: String)
    ensures
        r@ == parse_error_text(message@, opt_view(*help), *location, opt_view(*source_line)),
{
    let mut out: Vec<char> = Vec::new();
    match location {
        Some(l) => {
            push_decimal(&mut out, l.line);
            push_str(&mut out, ":");
            push_decimal(&mut out, l.column);
            push_str(&mut out, ": ");
            push_str(&mut out, message);
            push_str(&mut out, "\n");
        },
        None => {
            push_str(&mut out, message);
            push_str(&mut out, "\n");
        },
    }
    proof {
        match location {
            Some(l) => {
                assert(out@ == decimal(l.line as nat) + ":"@ + decimal(l.column as nat) + ": "@
                    + message@ + "\n"@);
            },
            None => {
                assert(out@ == message@ + "\n"@);
            },
        }
    }
    let ghost head = out@;
    match (source_line, location) {
        (Some(s), Some(l)) => {
            push_str(&mut out, "  |\n");
            let mut d: Vec<char> = Vec::new();
            push_decimal(&mut d, l.line);
            let mut k: usize = d.len();
            while k < 3
                invariant
                    d.len() <= k <= 3 || (k == d.len() && k >= 3),
                    out@ == head + "  |\n"@ + spaces((k - d.len()) as nat),
                decreases 3 - k,
            {
                proof {
                    assert(spaces((k + 1 - d.len()) as nat) == spaces((k - d.len()) as nat)
                        + seq![' ']);
                }
                out.push(' ');
                k = k + 1;
            }
            push_all(&mut out, &d);
            proof {
                assert(spaces((k - d.len()) as nat) + d@ == pad3(d@));
            }
            push_str(&mut out, " | ");
            push_str(&mut out, s.as_str());
            push_str(&mut out, "\n");
            push_str(&mut out, "  | ");
            let n = l.column.saturating_sub(1);
            let mut i: usize = 0;
            let ghost before = out@;
            while i < n
                invariant
                    i <= n,
                    out@ == before + spaces(i as nat),
                decreases n - i,
            {
                proof {
                    assert(spaces((i + 1) as nat) == spaces(i as nat) + seq![' ']);
                }
                out.push(' ');
                i = i + 1;
            }
            push_str(&mut out, "^\n");
            proof {
                assert(out@ == head + ("  |\n"@ + pad3(d@) + " | "@ + s@ + "\n"@ + "  | "@
                    + spaces(sub_sat(l.column as nat, 1)) + "^\n"@));
            }
        },
        _ => {
            assert(out@ == head + Seq::<char>::empty());
        },
    }
    let ghost body = out@;
    match help {
        Some(h) => {
            push_str(&mut out, "  = help: ");
            push_str(&mut out, h.as_str());
            assert(out@ == body + ("  = help: "@ + h@));
        },
        None => {
            assert(out@ == body + Seq::<char>::empty());
        },
    }
    proof {
        let context = match (opt_view(*source_line), *location) {
            (Some(s), Some(l)) => "  |\n"@ + pad3(decimal(l.line as nat)) + " | "@ + s + "\n"@
                + "  | "@ + spaces(sub_sat(l.column as nat, 1)) + "^\n"@,
            _ => Seq::empty(),
        };
        let tail = match opt_view(*help) {
            Some(h) => "  = help: "@ + h,
            None => Seq::empty(),
        };
        assert(body == head + context);
        assert(out@ == head + context + tail);
    }
    string_of(&trim_end_of(&out))
}

/// The place of byte offset `offset` in the source characters `src`.
pub fn location_of(src: &Vec<char>, offset: usize) -> (r: SourceLocation)
    ensures
        r == location_at(src@, offset as int),
{
    let mut k: usize = 0;
    let mut b: u128 = 0;
    let mut line: usize = 1;
    let mut col: usize = 1;
    proof {
        assert(src@.take(0) == Seq::<char>::empty());
    }
    while k < src.len() && b < offset as u128
        invariant
            k <= src.len(),
            b == byte_len(src@.take(k as int)),
            b <= 4 * k,
            (line as nat, col as nat) == location_after(src@.take(k as int)),
            forall|j: int| 0 <= j < k ==> byte_len(#[trigger] src@.take(j)) < offset,
        decreases src.len() - k,
    {
        proof {
            lemma_byte_len_step(src@, k as int);
            assert(src@.take(k as int + 1).drop_last() == src@.take(k as int));
        }
        if src[k] == '\n' {
            line = line.saturating_add(1);
            col = 1;
        } else {
            col = col.saturating_add(1);
        }
        b = b + char_width(src[k]);
        k = k + 1;
    }
    proof {
        lemma_char_index_skip(src@, offset as int, k as int);
    }
    SourceLocation { line, column: col }
}

} // verus!
