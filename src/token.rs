//! Token preprocessing: the analyzer's spans become tokens that carry their own text and the
//! source text that precedes them.
use nu_parser::FlatShape;
use nu_protocol::Span;
use vstd::prelude::*;

use crate::text::{chars_of, slice};

verus! {

/// The classes of token that the layout engine tells apart.
#[derive(Clone, Copy, Debug, PartialEq, Eq, Structural)]
pub enum Shape {
    Pipe,
    Block,
    Closure,
    Record,
    List,
    String,
    StringInterpolation,
    Operator,
    Signature,
    Other,
}

/// The class of an analyzer shape.
pub open spec fn shape_of(s: FlatShape) -> Shape {
    match s {
        FlatShape::Pipe => Shape::Pipe,
        FlatShape::Block => Shape::Block,
        FlatShape::Closure => Shape::Closure,
        FlatShape::Record => Shape::Record,
        FlatShape::List => Shape::List,
        FlatShape::String => Shape::String,
        FlatShape::StringInterpolation => Shape::StringInterpolation,
        FlatShape::Operator => Shape::Operator,
        FlatShape::Signature => Shape::Signature,
        _ => Shape::Other,
    }
}

/// Classifies an analyzer shape.
pub fn shape_class(s: &FlatShape) -> (r: Shape)
    ensures
        r == shape_of(*s),
{
    match s {
        FlatShape::Pipe => Shape::Pipe,
        FlatShape::Block => Shape::Block,
        FlatShape::Closure => Shape::Closure,
        FlatShape::Record => Shape::Record,
        FlatShape::List => Shape::List,
        FlatShape::String => Shape::String,
        FlatShape::StringInterpolation => Shape::StringInterpolation,
        FlatShape::Operator => Shape::Operator,
        FlatShape::Signature => Shape::Signature,
        _ => Shape::Other,
    }
}

/// A token as the layout engine sees it.
pub ghost struct TokenView {
    pub text: Seq<char>,
    pub shape: Shape,
    pub gap: Seq<char>,
}

/// A token: its text, its class, and the source text between the previous token and it.
#[derive(Clone, Debug)]
pub struct Token {
    /// The source text that the token covers.
    pub text: Vec<char>,
    /// The token's class.
    pub shape: Shape,
    /// The source text between the end of the previous token and this one.
    pub gap_before: Vec<char>,
}

impl View for Token {
    type V = TokenView;

    open spec fn view(&self) -> TokenView {
        TokenView { text: self.text@, shape: self.shape, gap: self.gap_before@ }
    }
}

/// The views of a token vector.
pub open spec fn views(ts: Seq<Token>) -> Seq<TokenView> {
    ts.map_values(|t: Token| t@)
}

/// How many bytes UTF-8 takes for `c`.
pub open spec fn utf8_width(c: char) -> nat {
    let u = c as u32;
    if u < 0x80 {
        1
    } else if u < 0x800 {
        2
    } else if u < 0x10000 {
        3
    } else {
        4
    }
}

/// How many bytes UTF-8 takes for `s`.
pub open spec fn byte_len(s: Seq<char>) -> nat
    decreases s.len(),
{
    if s.len() == 0 {
        0
    } else {
        byte_len(s.drop_last()) + utf8_width(s.last())
    }
}

/// The first character position at or after `k` whose byte offset is at least `b`, or the
/// length.
pub open spec fn char_index_from(s: Seq<char>, b: int, k: int) -> int
    decreases s.len() - k,
{
    if 0 <= k < s.len() && byte_len(s.take(k)) < b {
        char_index_from(s, b, k + 1)
    } else {
        k
    }
}

/// The character position that byte offset `b` falls on, rounded up.
pub open spec fn char_index(s: Seq<char>, b: int) -> int {
    char_index_from(s, b, 0)
}

/// Byte offset `b` lies between two characters of `s` (or at an end).
pub open spec fn on_boundary(s: Seq<char>, b: int) -> bool {
    0 <= b && byte_len(s.take(char_index(s, b))) == b
}

/// The preprocessor keeps a span that starts at or after the end of the last one kept, does
/// not end before it starts, stays inside the source and falls between characters.
pub open spec fn keeps(s: Seq<char>, sp: Span, last: int) -> bool {
    &&& last <= sp.start
    &&& sp.start <= sp.end
    &&& sp.end <= byte_len(s)
    &&& on_boundary(s, sp.start as int)
    &&& on_boundary(s, sp.end as int)
}

/// The synthetic last token that carries what follows the last kept span.
pub open spec fn trailing(s: Seq<char>, last: int) -> Seq<TokenView> {
    if char_index(s, last) < s.len() {
        seq![
            TokenView {
                text: Seq::empty(),
                shape: Shape::Other,
                gap: s.subrange(char_index(s, last), s.len() as int),
            },
        ]
    } else {
        Seq::empty()
    }
}

/// The tokens made of `spans` from the `i`th on, where the last span kept ended at byte `last`.
pub open spec fn tokens_from(
    s: Seq<char>,
    spans: Seq<(Span, FlatShape)>,
    i: int,
    last: int,
) -> Seq<TokenView>
    decreases spans.len() - i,
{
    if i < 0 || i >= spans.len() {
        trailing(s, last)
    } else {
        let sp = spans[i].0;
        if keeps(s, sp, last) {
            seq![
                TokenView {
                    text: s.subrange(char_index(s, sp.start as int), char_index(s, sp.end as int)),
                    shape: shape_of(spans[i].1),
                    gap: s.subrange(char_index(s, last), char_index(s, sp.start as int)),
                },
            ] + tokens_from(s, spans, i + 1, sp.end as int)
        } else {
            tokens_from(s, spans, i + 1, last)
        }
    }
}

/// The token vector of source `s` under the analyzer's `spans`.
pub open spec fn preprocess(s: Seq<char>, spans: Seq<(Span, FlatShape)>) -> Seq<TokenView> {
    tokens_from(s, spans, 0, 0)
}

pub proof fn lemma_byte_len_step(s: Seq<char>, k: int)
    requires
        0 <= k < s.len(),
    ensures
        byte_len(s.take(k + 1)) == byte_len(s.take(k)) + utf8_width(s[k]),
{
    assert(s.take(k + 1).drop_last() == s.take(k));
}

pub proof fn lemma_byte_len_bound(s: Seq<char>)
    ensures
        byte_len(s) <= 4 * s.len(),
    decreases s.len(),
{
    if s.len() > 0 {
        lemma_byte_len_bound(s.drop_last());
    }
}

pub proof fn lemma_byte_len_grows(s: Seq<char>, j: int, k: int)
    requires
        0 <= j < k <= s.len(),
    ensures
        byte_len(s.take(j)) < byte_len(s.take(k)),
    decreases k - j,
{
    lemma_byte_len_step(s, k - 1);
    if j < k - 1 {
        lemma_byte_len_grows(s, j, k - 1);
    }
}

pub proof fn lemma_char_index_bounds(s: Seq<char>, b: int, k: int)
    requires
        0 <= k <= s.len(),
    ensures
        k <= char_index_from(s, b, k) <= s.len(),
        forall|j: int| k <= j < char_index_from(s, b, k) ==> byte_len(#[trigger] s.take(j)) < b,
        char_index_from(s, b, k) < s.len() ==> byte_len(s.take(char_index_from(s, b, k))) >= b,
    decreases s.len() - k,
{
    if k < s.len() && byte_len(s.take(k)) < b {
        lemma_char_index_bounds(s, b, k + 1);
    }
}

pub proof fn lemma_char_index_skip(s: Seq<char>, b: int, k: int)
    requires
        0 <= k <= s.len(),
        forall|j: int| 0 <= j < k ==> byte_len(#[trigger] s.take(j)) < b,
    ensures
        char_index(s, b) == char_index_from(s, b, k),
    decreases k,
{
    if k > 0 {
        lemma_char_index_skip(s, b, k - 1);
    }
}

/// How many bytes UTF-8 takes for `c`.
pub fn char_width(c: char) -> (r: u128)
    ensures
        r == utf8_width(c),
{
    let u = c as u32;
    if u < 0x80 {
        1
    } else if u < 0x800 {
        2
    } else if u < 0x10000 {
        3
    } else {
        4
    }
}

/// How many bytes UTF-8 takes for `s`.
pub fn total_bytes(s: &Vec<char>) -> (r: u128)
    ensures
        r == byte_len(s@),
{
    let mut k: usize = 0;
    let mut b: u128 = 0;
    while k < s.len()
        invariant
            k <= s.len(),
            b == byte_len(s@.take(k as int)),
            b <= 4 * k,
        decreases s.len() - k,
    {
        proof {
            lemma_byte_len_step(s@, k as int);
        }
        b = b + char_width(s[k]);
        k = k + 1;
    }
    proof {
        assert(s@.take(s.len() as int) == s@);
    }
    b
}

/// Moves a cursor from character `k` to the character that byte `b` falls on.
fn seek(s: &Vec<char>, k: usize, bk: u128, b: usize) -> (r: (usize, u128))
    requires
        k <= s.len(),
        bk == byte_len(s@.take(k as int)),
        forall|j: int| 0 <= j < k ==> byte_len(#[trigger] s@.take(j)) < b,
    ensures
        r.0 == char_index(s@, b as int),
        r.1 == byte_len(s@.take(r.0 as int)),
        k <= r.0 <= s.len(),
{
    let mut k = k;
    let mut bk = bk;
    proof {
        lemma_char_index_skip(s@, b as int, k as int);
        lemma_byte_len_bound(s@.take(k as int));
    }
    while k < s.len() && bk < b as u128
        invariant
            k <= s.len(),
            bk == byte_len(s@.take(k as int)),
            bk <= 4 * k,
            char_index(s@, b as int) == char_index_from(s@, b as int, k as int),
        decreases s.len() - k,
    {
        proof {
            lemma_byte_len_step(s@, k as int);
        }
        bk = bk + char_width(s[k]);
        k = k + 1;
    }
    (k, bk)
}

/// The token vector of the source characters `src` under the analyzer's spans.
pub fn preprocess_chars(src: &Vec<char>, flattened: &[(Span, FlatShape)]) -> (r: Vec<Token>)
    ensures
        views(r@) == preprocess(src@, flattened@),
{
    let ghost s = src@;
    let total = total_bytes(src);
    let mut tokens: Vec<Token> = Vec::new();
    let mut last: usize = 0;
    let mut k: usize = 0;
    let mut bk: u128 = 0;
    let mut i: usize = 0;
    proof {
        assert(views(tokens@) == Seq::<TokenView>::empty());
        assert(s.take(0) == Seq::<char>::empty());
    }
    while i < flattened.len()
        invariant
            i <= flattened.len(),
            k <= s.len(),
            k == char_index(s, last as int),
            bk == byte_len(s.take(k as int)),
            bk == last,
            total == byte_len(s),
            s == src@,
            views(tokens@) + tokens_from(s, flattened@, i as int, last as int) == preprocess(
                s,
                flattened@,
            ),
        decreases flattened.len() - i,
    {
        let sp = flattened[i].0;
        proof {
            lemma_char_index_bounds(s, last as int, 0);
            if sp.start >= last {
                assert forall|j: int| 0 <= j < k implies byte_len(#[trigger] s.take(j))
                    < sp.start by {
                    lemma_byte_len_grows(s, j, k as int);
                }
            }
        }
        if sp.start >= last && sp.start <= sp.end && (sp.end as u128) <= total {
            let (ks, bs) = seek(src, k, bk, sp.start);
            if bs == sp.start as u128 {
                proof {
                    assert forall|j: int| 0 <= j < ks implies byte_len(#[trigger] s.take(j))
                        < sp.end by {
                        lemma_byte_len_grows(s, j, ks as int);
                    }
                }
                let (ke, be) = seek(src, ks, bs, sp.end);
                if be == sp.end as u128 {
                    let t = Token {
                        text: slice(src, ks, ke),
                        shape: shape_class(&flattened[i].1),
                        gap_before: slice(src, k, ks),
                    };
                    proof {
                        let tv = seq![t@];
                        assert(views(tokens@.push(t)) == views(tokens@) + tv);
                        assert(tokens_from(s, flattened@, i as int, last as int) == tv
                            + tokens_from(s, flattened@, i + 1, sp.end as int));
                    }
                    tokens.push(t);
                    last = sp.end;
                    k = ke;
                    bk = be;
                    i = i + 1;
                    continue;
                }
            }
        }
        i = i + 1;
    }
    if k < src.len() {
        let t = Token { text: Vec::new(), shape: Shape::Other, gap_before: slice(src, k, src.len()) };
        proof {
            assert(views(tokens@.push(t)) == views(tokens@) + seq![t@]);
        }
        tokens.push(t);
    }
    tokens
}

/// The token vector of `source` under the analyzer's spans: each kept span becomes a token
/// with the text before it as its gap, and what follows the last one becomes a final token
/// with empty text.
pub fn preprocess_tokens(source: &str, flattened: &[(Span, FlatShape)]) -> (r: Vec<Token>)
    ensures
        views(r@) == preprocess(source@, flattened@),
{
    preprocess_chars(&chars_of(source), flattened)
}

/// The character position of byte offset `b` of `s`, where it falls between characters.
pub fn char_at_byte(s: &Vec<char>, b: usize) -> (r: Option<usize>)
    ensures
        r matches Some(k) ==> on_boundary(s@, b as int) && k == char_index(s@, b as int),
        r is None ==> !on_boundary(s@, b as int),
{
    proof {
        assert(s@.take(0) == Seq::<char>::empty());
    }
    let (k, bk) = seek(s, 0, 0, b);
    proof {
        lemma_char_index_bounds(s@, b as int, 0);
    }
    if bk == b as u128 {
        Some(k)
    } else {
        None
    }
}

} // verus!
