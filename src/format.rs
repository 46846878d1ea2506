//! The entry points: formatting source text, and formatting an analyzer's token stream.
use nu_parser::FlatShape;
use nu_protocol::engine::StateWorkingSet;
use nu_protocol::Span;
use vstd::prelude::*;

use crate::analyzer::{error_kind, help_of, parse_errors, ParseErrorKind};
use crate::config::Config;
use crate::engine::{layout, layout_tokens, lemma_single_final_newline};
use crate::error::{location_at, location_of, nth_line, opt_view, FormatError};
use crate::text::{chars_of, ends_with_char, line_end, slice, string_of};
use crate::token::{byte_len, preprocess, preprocess_chars, total_bytes};

verus! {

/// An analyzer error that only says a name could not be resolved: the source is valid
/// syntax, and formatting goes on.
pub open spec fn resolution_kind(k: ParseErrorKind) -> bool {
    k != ParseErrorKind::Other
}

/// Whether an error of kind `k` only says that a name could not be resolved.
pub fn is_resolution_error(k: ParseErrorKind) -> (r: bool)
    ensures
        r == resolution_kind(k),
{
    match k {
        ParseErrorKind::Other => false,
        _ => true,
    }
}

/// The position of the first error kind in `kinds` that is not a resolution error, if any:
/// the error that fails a format call.
pub fn first_syntax_error(kinds: &Vec<ParseErrorKind>) -> (r: Option<usize>)
    ensures
        r matches Some(i) ==> i < kinds.len() && !resolution_kind(kinds@[i as int]) && forall|
            j: int,
        | 0 <= j < i ==> resolution_kind(kinds@[j]),
        r is None ==> forall|j: int| 0 <= j < kinds.len() ==> resolution_kind(kinds@[j]),
{
    let mut i: usize = 0;
    while i < kinds.len()
        invariant
            i <= kinds.len(),
            forall|j: int| 0 <= j < i ==> resolution_kind(kinds@[j]),
        decreases kinds.len() - i,
    {
        if !is_resolution_error(kinds[i]) {
            return Some(i);
        }
        i = i + 1;
    }
    None
}

/// The place and source line that a parse error at byte `offset` of `s` reports: both where
/// the offset lies inside the source, neither where it does not.
pub open spec fn error_place(
    s: Seq<char>,
    offset: int,
    location: Option<crate::error::SourceLocation>,
    source_line: Option<Seq<char>>,
) -> bool {
    if offset < byte_len(s) {
        location == Some(location_at(s, offset)) && source_line == Some(
            nth_line(s, (location_at(s, offset).line - 1) as nat),
        )
    } else {
        location.is_none() && source_line.is_none()
    }
}

/// Line `n` of `src`, counted from 0, as `str::lines` gives it.
fn line_at(src: &Vec<char>, n: usize) -> (r: Vec<char>)
    ensures
        r@ == nth_line(src@, n as nat),
{
    let mut p: usize = 0;
    let mut m: usize = n;
    proof {
        assert(src@.skip(0) == src@);
    }
    loop
        invariant
            p <= src.len(),
            nth_line(src@, n as nat) == nth_line(src@.skip(p as int), m as nat),
        decreases src.len() - p,
    {
        let k = line_end(src, p);
        if m == 0 {
            if k < src.len() {
                let l = slice(src, p, k);
                if ends_with_char(&l, '\r') {
                    return slice(&l, 0, l.len() - 1);
                }
                return l;
            }
            proof {
                assert(src@.skip(p as int) == src@.subrange(p as int, src.len() as int));
            }
            return slice(src, p, src.len());
        }
        if k >= src.len() {
            return Vec::new();
        }
        p = k + 1;
        m = m - 1;
    }
}

/// The error for an analyzer error with `message` and `help` at byte `offset` of `src`.
pub fn parse_failure(message: String, help: Option<String>, offset: usize, src: &Vec<char>) -> (r:
    FormatError)
    ensures
        match r {
            FormatError::ParseError { message: m, help: h, location, source_line } => m@
                == message@ && opt_view(h) == opt_view(help) && error_place(
                src@,
                offset as int,
                location,
                opt_view(source_line),
            ),
        },
{
    let total = total_bytes(src);
    if (offset as u128) < total {
        let loc = location_of(src, offset);
        proof {
            crate::error::lemma_location_bounds(
                src@.take(crate::token::char_index(src@, offset as int)),
            );
        }
        let line = line_at(src, loc.line - 1);
        FormatError::ParseError {
            message,
            help,
            location: Some(loc),
            source_line: Some(string_of(&line)),
        }
    } else {
        FormatError::ParseError { message, help, location: None, source_line: None }
    }
}

/// Formats `source` under the analyzer's token stream `flattened`.
pub fn format_tokens(source: &str, flattened: &[(Span, FlatShape)], config: &Config) -> (r: String)
    ensures
        r@ == layout(preprocess(source@, flattened@), *config),
        r@.len() >= 1 && r@.last() == '\n',
        r@.len() >= 2 ==> r@[r@.len() - 2] != '\n',
{
    let src = chars_of(source);
    let toks = preprocess_chars(&src, flattened);
    let out = layout_tokens(&toks, config);
    proof {
        lemma_single_final_newline(crate::engine::run(
            crate::token::views(toks@),
            *config,
            0,
            crate::layout::initial(),
        ).out);
    }
    string_of(&out)
}

/// Formats source text. The analyzer parses it; the call fails exactly where
/// [`first_syntax_error`] finds, among the kinds of the errors it reports, one that is not only
/// an unresolved name, and then with that first such error; else the layout engine lays out
/// the analyzer's token stream.
pub fn format_source(source: &str, config: &Config) -> (r: Result<String, FormatError>)
    ensures
        r matches Ok(s) ==> exists|flat: Seq<(Span, FlatShape)>| s@ == layout(
            #[trigger] preprocess(source@, flat),
            *config,
        ),
        r matches Ok(s) ==> s@.len() >= 1 && s@.last() == '\n' && (s@.len() >= 2 ==> s@[s@.len()
            - 2] != '\n'),
        r matches Err(FormatError::ParseError { location, source_line, .. }) ==> exists|
            offset: int,
        | #[trigger] error_place(source@, offset, location, opt_view(source_line)),
{
    let engine = nu_cmd_lang::create_default_context();
    let mut ws = StateWorkingSet::new(&engine);
    let block = nu_parser::parse(&mut ws, None, source.as_bytes(), false);
    let errors = parse_errors(&ws);
    let mut kinds: Vec<ParseErrorKind> = Vec::new();
    let mut i: usize = 0;
    while i < errors.len()
        invariant
            i <= errors.len(),
            kinds.len() == i,
        decreases errors.len() - i,
    {
        kinds.push(error_kind(&errors[i]));
        i = i + 1;
    }
    if let Some(k) = first_syntax_error(&kinds) {
        let e = &errors[k];
        let src = chars_of(source);
        let err = parse_failure(e.to_string(), help_of(e), e.span().start, &src);
        return Err(err);
    }
    let flattened = nu_parser::flatten_block(&ws, &block);
    let s = format_tokens(source, flattened.as_slice(), config);
    Ok(s)
}

} // verus!
