//! A readable dump of how the analyzer splits a source into spans, for reports of
//! formatting bugs.
use nu_parser::FlatShape;
use nu_protocol::engine::StateWorkingSet;
use nu_protocol::Span;
use vstd::prelude::*;

use crate::text::{chars_of, decimal, push_all, push_decimal, slice, string_of};
use crate::token::{byte_len, char_at_byte, char_index, on_boundary, total_bytes};

verus! {

/// What `{:?}` writes for a string: the text quoted, with escapes.
pub uninterp spec fn debug_quoted(s: Seq<char>) -> Seq<char>;

/// Relies on `Debug` for `str`: the text of `s` quoted, with escapes.
#[verifier::external_body]
fn quoted(s: &str) -> (r: String)
    ensures
        r@ == debug_quoted(s@),
{
    format!("{s:?}")
}

/// Relies on the derived `Debug` for `nu_parser::FlatShape`: the shape's name. Nothing is
/// promised of the text.
#[verifier::external_body]
fn shape_name(s: &FlatShape) -> String {
    format!("{s:?}")
}

/// The characters of `s` from byte `a` up to byte `b`, where both fall between characters
/// and `a <= b <= byte_len(s)`.
pub open spec fn bytes_between(s: Seq<char>, a: int, b: int) -> Seq<char> {
    s.subrange(char_index(s, a), char_index(s, b))
}

/// The source between byte `a` and byte `b` can be cut out.
pub open spec fn cuttable(s: Seq<char>, a: int, b: int) -> bool {
    a <= b && b <= byte_len(s) && on_boundary(s, a) && on_boundary(s, b)
}

/// The dump's line for the source between the end of the last span, `last`, and the start of
/// the next, `a`: present where that text is not empty.
pub open spec fn gap_part(s: Seq<char>, last: int, a: int) -> Seq<char> {
    if a > last && cuttable(s, last, a) {
        "  GAP: "@ + debug_quoted(bytes_between(s, last, a)) + "\n"@
    } else {
        Seq::empty()
    }
}

/// The dump's line for the span from byte `a` to byte `b` with shape name `name`.
pub open spec fn entry_part(s: Seq<char>, a: usize, b: usize, name: Seq<char>) -> Seq<char> {
    if cuttable(s, a as int, b as int) {
        "  "@ + name + ": "@ + debug_quoted(bytes_between(s, a as int, b as int)) + " ("@
            + decimal(a as nat) + "-"@ + decimal(b as nat) + ")\n"@
    } else {
        "  "@ + name + ": <invalid span "@ + decimal(a as nat) + "-"@ + decimal(b as nat)
            + ">\n"@
    }
}

/// The dump's line for what follows the last span, which ended at byte `last`.
pub open spec fn trailing_part(s: Seq<char>, last: int) -> Seq<char> {
    if last < byte_len(s) && on_boundary(s, last) {
        "  TRAILING: "@ + debug_quoted(s.subrange(char_index(s, last), s.len() as int)) + "\n"@
    } else {
        Seq::empty()
    }
}

/// The dump's lines for the entries from the `i`th on, where the last one ended at `last`.
/// Each entry is a span's start, end and shape name.
pub open spec fn dump_from(
    s: Seq<char>,
    entries: Seq<(usize, usize, Seq<char>)>,
    i: int,
    last: int,
) -> Seq<char>
    decreases entries.len() - i,
{
    if i < 0 || i >= entries.len() {
        trailing_part(s, last)
    } else {
        gap_part(s, last, entries[i].0 as int) + entry_part(
            s,
            entries[i].0,
            entries[i].1,
            entries[i].2,
        ) + dump_from(s, entries, i + 1, entries[i].1 as int)
    }
}

/// The whole dump of source `s` under the spans `entries`.
pub open spec fn dump(s: Seq<char>, entries: Seq<(usize, usize, Seq<char>)>) -> Seq<char> {
    "Source: "@ + debug_quoted(s) + " (len="@ + decimal(byte_len(s)) + ")\n\nTokens:\n"@
        + dump_from(s, entries, 0, 0)
}

/// The views of dump entries.
pub open spec fn entry_views(e: Seq<(usize, usize, String)>) -> Seq<(usize, usize, Seq<char>)> {
    e.map_values(|x: (usize, usize, String)| (x.0, x.1, x.2@))
}

/// Appends the characters of `s`.
fn push_str(out: &mut Vec<char>, s: &str)
    ensures
        final(out)@ == old(out)@ + s@,
{
    let v = chars_of(s);
    push_all(out, &v);
}

/// Appends the quoted form of the characters `v`.
fn push_quoted(out: &mut Vec<char>, v: &Vec<char>)
    ensures
        final(out)@ == old(out)@ + debug_quoted(v@),
{
    let s = string_of(v);
    let q = quoted(s.as_str());
    push_str(out, q.as_str());
}

/// Where bytes `a <= b` both fall between characters, so do their positions, in order.
proof fn lemma_index_order(s: Seq<char>, a: int, b: int)
    requires
        on_boundary(s, a),
        on_boundary(s, b),
        a <= b,
        b <= byte_len(s),
    ensures
        0 <= char_index(s, a) <= char_index(s, b) <= s.len(),
        a < b ==> char_index(s, a) < char_index(s, b),
{
    crate::token::lemma_char_index_bounds(s, a, 0);
    crate::token::lemma_char_index_bounds(s, b, 0);
    if char_index(s, b) < char_index(s, a) {
        crate::token::lemma_byte_len_grows(s, char_index(s, b), char_index(s, a));
    }
    if a < b && char_index(s, a) == char_index(s, b) {
        assert(false);
    }
}

/// Appends the dump's line for the source between bytes `last` and `a`.
fn push_gap(out: &mut Vec<char>, src: &Vec<char>, total: u128, last: usize, a: usize)
    requires
        total == byte_len(src@),
    ensures
        final(out)@ == old(out)@ + gap_part(src@, last as int, a as int),
{
    if a > last && (a as u128) <= total {
        match (char_at_byte(src, last), char_at_byte(src, a)) {
            (Some(kl), Some(ka)) => {
                proof {
                    lemma_index_order(src@, last as int, a as int);
                }
                push_str(out, "  GAP: ");
                push_quoted(out, &slice(src, kl, ka));
                push_str(out, "\n");
                return;
            },
            _ => {},
        }
    }
    assert(out@ == old(out)@ + Seq::<char>::empty());
}

/// Appends the dump's line for the span from byte `a` to byte `b` named `name`.
fn push_entry(out: &mut Vec<char>, src: &Vec<char>, total: u128, a: usize, b: usize, name: &str)
    requires
        total == byte_len(src@),
    ensures
        final(out)@ == old(out)@ + entry_part(src@, a, b, name@),
{
    let ca = char_at_byte(src, a);
    let cb = char_at_byte(src, b);
    push_str(out, "  ");
    push_str(out, name);
    if a <= b && (b as u128) <= total {
        match (ca, cb) {
            (Some(ka), Some(kb)) => {
                proof {
                    lemma_index_order(src@, a as int, b as int);
                }
                push_str(out, ": ");
                push_quoted(out, &slice(src, ka, kb));
                push_str(out, " (");
                push_decimal(out, a);
                push_str(out, "-");
                push_decimal(out, b);
                push_str(out, ")\n");
                return;
            },
            _ => {},
        }
    }
    push_str(out, ": <invalid span ");
    push_decimal(out, a);
    push_str(out, "-");
    push_decimal(out, b);
    push_str(out, ">\n");
}

/// The dump of `source` under spans given as start, end and shape name.
pub fn dump_tokens(source: &str, entries: &Vec<(usize, usize, String)>) -> (r: String)
    ensures
        r@ == dump(source@, entry_views(entries@)),
{
    let src = chars_of(source);
    let total = total_bytes(&src);
    let ghost s = src@;
    let ghost ev = entry_views(entries@);
    let mut out: Vec<char> = Vec::new();
    push_str(&mut out, "Source: ");
    push_quoted(&mut out, &src);
    push_str(&mut out, " (len=");
    push_decimal_wide(&mut out, total);
    push_str(&mut out, ")\n\nTokens:\n");
    let ghost head = out@;
    assert(head == "Source: "@ + debug_quoted(s) + " (len="@ + decimal(byte_len(s))
        + ")\n\nTokens:\n"@);
    let mut last: usize = 0;
    let mut i: usize = 0;
    while i < entries.len()
        invariant
            i <= entries.len(),
            s == src@,
            ev == entry_views(entries@),
            total == byte_len(s),
            head + dump_from(s, ev, 0, 0) == out@ + dump_from(s, ev, i as int, last as int),
        decreases entries.len() - i,
    {
        let a = entries[i].0;
        let b = entries[i].1;
        assert(ev[i as int] == (a, b, entries[i as int].2@));
        let ghost out0 = out@;
        push_gap(&mut out, &src, total, last, a);
        push_entry(&mut out, &src, total, a, b, entries[i].2.as_str());
        proof {
            let g = gap_part(s, last as int, a as int);
            let t = entry_part(s, a, b, entries[i as int].2@);
            let rest = dump_from(s, ev, i + 1, b as int);
            assert(dump_from(s, ev, i as int, last as int) == g + t + rest);
            assert(out0 + (g + t + rest) == out@ + rest);
        }
        last = b;
        i = i + 1;
    }
    let ghost out2 = out@;
    if (last as u128) < total {
        match char_at_byte(&src, last) {
            Some(kl) => {
                proof {
                    crate::token::lemma_char_index_bounds(s, last as int, 0);
                }
                push_str(&mut out, "  TRAILING: ");
                push_quoted(&mut out, &slice(&src, kl, src.len()));
                push_str(&mut out, "\n");
            },
            None => {},
        }
    }
    proof {
        assert(out@ == out2 + trailing_part(s, last as int));
    }
    string_of(&out)
}

/// Appends the decimal numeral of `n`.
fn push_decimal_wide(out: &mut Vec<char>, n: u128)
    ensures
        final(out)@ == old(out)@ + decimal(n as nat),
    decreases n,
{
    if n < 10 {
        let mut d: Vec<char> = Vec::new();
        push_decimal(&mut d, n as usize);
        push_all(out, &d);
    } else {
        push_decimal_wide(out, n / 10);
        let mut d: Vec<char> = Vec::new();
        push_decimal(&mut d, (n % 10) as usize);
        push_all(out, &d);
        proof {
            assert(decimal((n % 10) as nat) == seq![crate::text::digit_char((n % 10) as nat)]);
        }
    }
}

/// The dump of how the analyzer splits `source`: the source, then one line per span with
/// the text before it, and what follows the last span.
pub fn debug_tokens(source: &str) -> (r: String)
    ensures
        exists|e: Seq<(usize, usize, Seq<char>)>| r@ == #[trigger] dump(source@, e),
{
    let engine = nu_cmd_lang::create_default_context();
    let mut ws = StateWorkingSet::new(&engine);
    let block = nu_parser::parse(&mut ws, None, source.as_bytes(), false);
    let flattened = nu_parser::flatten_block(&ws, &block);
    let mut entries: Vec<(usize, usize, String)> = Vec::new();
    let mut i: usize = 0;
    while i < flattened.len()
        invariant
            i <= flattened.len(),
        decreases flattened.len() - i,
    {
        let sp: Span = flattened[i].0;
        entries.push((sp.start, sp.end, shape_name(&flattened[i].1)));
        i = i + 1;
    }
    dump_tokens(source, &entries)
}

} // verus!
