use nu_parser::FlatShape;
use nu_protocol::Span;
use nufmt::analyzer::ParseErrorKind;
use nufmt::closure::parse_closure_params;
use nufmt::format::first_syntax_error;
use nufmt::debug::dump_tokens;
use nufmt::delim::{
    count_close_braces, ends_with_close_brace, ends_with_close_bracket, ends_with_close_paren,
    is_close_bracket, is_open_bracket, starts_with_open_brace, starts_with_open_paren,
};
use nufmt::error::{format_parse_error, location_of};
use nufmt::estimate::{estimate_width, BracketClass};
use nufmt::quote::{convert_string_quotes, to_double_quotes, to_single_quotes};
use nufmt::token::{preprocess_tokens, Shape};
use nufmt::{
    debug_tokens, format_source, format_tokens, BracketSpacing, Config, FormatError, QuoteStyle,
    SourceLocation, TrailingComma,
};

fn text(v: &[char]) -> String {
    v.iter().collect()
}

#[test]
fn quotes_follow_the_style() {
    assert_eq!(convert_string_quotes("'a b'", QuoteStyle::Double), "\"a b\"");
    assert_eq!(convert_string_quotes("\"a b\"", QuoteStyle::Single), "'a b'");
    assert_eq!(convert_string_quotes("'a b'", QuoteStyle::Preserve), "'a b'");
    assert_eq!(convert_string_quotes("\"a b\"", QuoteStyle::Double), "\"a b\"");
    assert_eq!(to_double_quotes("'it\"s'"), "'it\"s'");
    assert_eq!(to_double_quotes("'a\\b'"), "'a\\b'");
    assert_eq!(to_single_quotes("\"it's\""), "\"it's\"");
    assert_eq!(to_single_quotes("\""), "\"");
    assert_eq!(to_single_quotes("bare"), "bare");
}

#[test]
fn quote_conversion_keeps_the_content() {
    for (t, style) in [
        ("'abc def'", QuoteStyle::Double),
        ("\"x y z\"", QuoteStyle::Single),
        ("''", QuoteStyle::Double),
    ] {
        let r = convert_string_quotes(t, style);
        assert_ne!(r, t);
        assert_eq!(r.len(), t.len());
        assert_eq!(&r[1..r.len() - 1], &t[1..t.len() - 1]);
    }
}

#[test]
fn delimiters_at_the_edges() {
    assert!(starts_with_open_brace("{ a"));
    assert!(!starts_with_open_brace(" {"));
    assert!(ends_with_close_brace("a }"));
    assert!(starts_with_open_paren("(x"));
    assert!(ends_with_close_paren("x)"));
    assert!(!ends_with_close_paren(""));
    assert!(is_open_bracket("{"));
    assert!(is_open_bracket("["));
    assert!(!is_open_bracket("{{"));
    assert!(is_close_bracket("]"));
    assert!(!is_close_bracket(" ]"));
    assert!(ends_with_close_bracket("?]"));
    assert!(ends_with_close_bracket("?}"));
    assert!(!ends_with_close_bracket("?)"));
    assert_eq!(count_close_braces(",\n}\n}"), 2);
    assert_eq!(count_close_braces("abc"), 0);
}

#[test]
fn closure_parameters_are_split_off() {
    assert_eq!(parse_closure_params("|x, y| $x + $y"), (Some("|x, y|"), " $x + $y"));
    assert_eq!(parse_closure_params("  |a| a"), (Some("|a|"), " a"));
    assert_eq!(parse_closure_params(" body"), (None, " body"));
    assert_eq!(parse_closure_params("|open"), (None, "|open"));
    assert_eq!(parse_closure_params("||"), (Some("||"), ""));
}

#[test]
fn preprocessing_keeps_gaps_and_drops_bad_spans() {
    let source = "ab  cd  ";
    let flat = vec![
        (Span::new(0, 2), FlatShape::Int),
        (Span::new(1, 3), FlatShape::Int),
        (Span { start: 5, end: 4 }, FlatShape::Int),
        (Span::new(4, 6), FlatShape::Pipe),
        (Span::new(7, 20), FlatShape::Int),
    ];
    let toks = preprocess_tokens(source, &flat);
    assert_eq!(toks.len(), 3);
    assert_eq!(text(&toks[0].text), "ab");
    assert_eq!(text(&toks[0].gap_before), "");
    assert_eq!(toks[0].shape, Shape::Other);
    assert_eq!(text(&toks[1].text), "cd");
    assert_eq!(text(&toks[1].gap_before), "  ");
    assert_eq!(toks[1].shape, Shape::Pipe);
    assert_eq!(text(&toks[2].text), "");
    assert_eq!(text(&toks[2].gap_before), "  ");
}

#[test]
fn preprocessing_counts_bytes() {
    let source = "é x";
    let flat = vec![(Span::new(0, 2), FlatShape::String), (Span::new(3, 4), FlatShape::Int)];
    let toks = preprocess_tokens(source, &flat);
    assert_eq!(toks.len(), 2);
    assert_eq!(text(&toks[0].text), "é");
    assert_eq!(text(&toks[1].text), "x");
    assert_eq!(text(&toks[1].gap_before), " ");
    let inside = vec![(Span::new(1, 2), FlatShape::Int)];
    let toks = preprocess_tokens(source, &inside);
    assert_eq!(toks.len(), 1);
    assert_eq!(text(&toks[0].gap_before), "é x");
}

#[test]
fn empty_source_gives_one_newline() {
    let config = Config::default();
    assert_eq!(format_tokens("", &[], &config), "\n");
    assert_eq!(format_source("", &config).unwrap(), "\n");
}

#[test]
fn output_ends_with_exactly_one_newline() {
    let config = Config::default();
    for source in ["ls\n\n\n", "ls   ", "# note\n\n", "ls\n"] {
        let r = format_source(source, &config).unwrap();
        assert!(r.ends_with('\n'));
        assert!(!r.ends_with("\n\n"), "{r:?}");
    }
    assert_eq!(format_source("ls\n\n\n", &config).unwrap(), "ls\n");
}

#[test]
fn token_stream_layout() {
    let config = Config::default();
    let source = "{a:1}";
    let flat = vec![
        (Span::new(0, 1), FlatShape::Record),
        (Span::new(1, 2), FlatShape::String),
        (Span::new(2, 3), FlatShape::Record),
        (Span::new(3, 4), FlatShape::Int),
        (Span::new(4, 5), FlatShape::Record),
    ];
    assert_eq!(format_tokens(source, &flat, &config), "{ a: 1 }\n");
    let compact = Config {
        bracket_spacing: BracketSpacing::Compact,
        ..Config::default()
    };
    assert_eq!(format_tokens(source, &flat, &compact), "{a: 1}\n");
}

#[test]
fn pipe_spacing_follows_the_gaps() {
    let config = Config::default();
    let flat = vec![
        (Span::new(0, 2), FlatShape::External(Box::new(Span::new(0, 2)))),
        (Span::new(2, 3), FlatShape::Pipe),
        (Span::new(3, 5), FlatShape::External(Box::new(Span::new(3, 5)))),
    ];
    assert_eq!(format_tokens("ls|wc", &flat, &config), "ls | wc\n");
    let flat = vec![
        (Span::new(0, 2), FlatShape::ExternalArg),
        (Span::new(4, 5), FlatShape::Pipe),
        (Span::new(7, 9), FlatShape::ExternalArg),
    ];
    assert_eq!(format_tokens("ls  |  wc", &flat, &config), "ls | wc\n");
}

#[test]
fn scenario_block_indentation() {
    let config = Config::default();
    let r = format_source("if true {\necho hello\n}", &config).unwrap();
    assert_eq!(r, "if true {\n  echo hello\n}\n");
    let wide = Config {
        indent_width: 4,
        ..Config::default()
    };
    let r = format_source("if true {\necho hello\n}", &wide).unwrap();
    assert_eq!(r, "if true {\n    echo hello\n}\n");
}

#[test]
fn scenario_closure_stays_on_one_line() {
    let config = Config::default();
    let r = format_source("{|x, y| $x + $y}", &config).unwrap();
    assert!(r.contains("|x, y|"));
    assert_eq!(r.lines().count(), 1);
    assert!(r.lines().all(|l| l.len() <= 100));
}

#[test]
fn trailing_comma_never() {
    let config = Config {
        trailing_comma: TrailingComma::Never,
        ..Config::default()
    };
    let r = format_source("{\na: 1\nb: 2\n}", &config).unwrap();
    assert_eq!(r, "{\n  a: 1\n  b: 2\n}\n");
}

#[test]
fn blank_lines_between_comments_shrink_to_one() {
    let config = Config::default();
    let r = format_source("# first\n\n\n# second\nls", &config).unwrap();
    assert_eq!(r, "# first\n\n# second\nls\n");
}

#[test]
fn interpolation_is_copied_unchanged() {
    let config = Config::default();
    let source = "echo $\"a   ($x   )  b\"";
    let r = format_source(source, &config).unwrap();
    assert!(r.contains("$\"a   ($x   )  b\""), "{r:?}");
}

#[test]
fn formatting_twice_changes_nothing() {
    let samples = [
        "ls|sort-by name",
        "if true {\necho hello\n}",
        "{a:1,  b:   2}",
        "{\na: 1\nb: 2\n}",
        "[\n1\n2\n3\n]",
        "{|x, y| $x + $y}",
        "echo 'hello'",
        "# note\nlet x = 1 + 2 # sum",
        "def f [] {\nif true {\n[1, 2]\n}\n}",
        "match $x {\n1 => \"a\",\n2 => \"b\"\n}",
        "def f [x] {\nmatch $x {\n1 => \"a\",\n_ => \"b\"\n}\n}",
        "def f [] {\nlet x = 1\n\n\nlet y = 2\n}",
        "if true {\n  # only a comment\n}",
        "let r = {aaaa: 1, bbbb: 2, cccc: 3, dddd: 4, eeee: 5, ffff: 6, gggg: 7, hhhh: 8, iiii: 9}",
        "let x = [\n{a: 1}\n{a: 2}\n]",
        "do {|x|\n$x\n}",
        "echo $\"a (1 + 2) b\"",
        "let x = {a: [1, 2], b: {c: 3}}",
        "match $x {\n1 => \"a\",\n\n\n2 => \"b\"\n}",
    ];
    let configs = [
        Config::default(),
        Config {
            indent_width: 4,
            max_width: 40,
            quote_style: QuoteStyle::Single,
            bracket_spacing: BracketSpacing::Compact,
            trailing_comma: TrailingComma::Never,
        },
        Config {
            quote_style: QuoteStyle::Preserve,
            ..Config::default()
        },
    ];
    for config in &configs {
        for s in samples {
            let once = format_source(s, config).unwrap();
            let twice = format_source(&once, config).unwrap();
            assert_eq!(once, twice, "source {s:?}");
        }
    }
}

#[test]
fn syntax_errors_fail_with_a_place() {
    let config = Config::default();
    let err = format_source("let x = (1 +", &config).unwrap_err();
    let FormatError::ParseError {
        message,
        location,
        source_line,
        ..
    } = &err;
    assert!(!message.is_empty());
    let loc = location.expect("a location inside the source");
    assert_eq!(loc.line, 1);
    assert_eq!(source_line.as_deref(), Some("let x = (1 +"));
    assert!(err.to_string().starts_with("1:"));
}

#[test]
fn unresolved_names_are_not_errors() {
    let config = Config::default();
    assert_eq!(format_source("echo $undefined", &config).unwrap(), "echo $undefined\n");
}

#[test]
fn parse_error_text() {
    let text = format_parse_error(
        "boom",
        &Some("try again".to_string()),
        &Some(SourceLocation { line: 2, column: 3 }),
        &Some("ab cd".to_string()),
    );
    assert_eq!(text, "2:3: boom\n  |\n  2 | ab cd\n  |   ^\n  = help: try again");
    assert_eq!(format_parse_error("plain", &None, &None, &None), "plain");
    let long = format_parse_error(
        "x",
        &None,
        &Some(SourceLocation { line: 1234, column: 1 }),
        &Some("y".to_string()),
    );
    assert_eq!(long, "1234:1: x\n  |\n1234 | y\n  | ^");
}

#[test]
fn dump_of_spans() {
    let entries = vec![
        (0, 2, "A".to_string()),
        (3, 5, "B".to_string()),
        (4, 9, "C".to_string()),
    ];
    let d = dump_tokens("ab cd\t", &entries);
    assert_eq!(
        d,
        "Source: \"ab cd\\t\" (len=6)\n\nTokens:\n  A: \"ab\" (0-2)\n  GAP: \" \"\n  B: \"cd\" (3-5)\n  C: <invalid span 4-9>\n"
    );
    let d = dump_tokens("ab cd\t", &entries[..2].to_vec());
    assert!(d.ends_with("  TRAILING: \"\\t\"\n"));
}

#[test]
fn debug_tokens_names_the_source() {
    let d = debug_tokens("ls");
    assert!(d.starts_with("Source: \"ls\" (len=2)\n\nTokens:\n"));
}

#[test]
fn match_arms_are_indented() {
    let config = Config::default();
    let r = format_source("def f [x] {\nmatch $x {\n1 => \"a\",\n_ => \"b\"\n}\n}", &config)
        .unwrap();
    assert_eq!(r, "def f [x] {\n  match $x {\n    1 => \"a\",\n    _ => \"b\"\n  }\n}\n");
    let r = format_source("match $x {\n1 => \"a\",\n2 => \"b\"\n}", &config).unwrap();
    assert_eq!(r, "match $x {\n  1 => \"a\",\n  2 => \"b\"\n}\n");
}

#[test]
fn blank_lines_in_a_block_shrink_to_one() {
    let config = Config::default();
    let r = format_source("def f [] {\nlet x = 1\n\n\nlet y = 2\n}", &config).unwrap();
    assert_eq!(r, "def f [] {\n  let x = 1\n\n  let y = 2\n}\n");
}

#[test]
fn a_block_of_only_a_comment() {
    let config = Config::default();
    let r = format_source("if true {\n# only a comment\n}", &config).unwrap();
    assert_eq!(r, "if true {\n  # only a comment\n}\n");
}

#[test]
fn a_record_too_wide_for_the_line_is_stacked() {
    let config = Config {
        max_width: 20,
        ..Config::default()
    };
    let r = format_source("let r = {alpha: 1, beta: 2}", &config).unwrap();
    assert_eq!(r, "let r = {\n  alpha: 1,\n  beta: 2,\n}\n");
    let fits = format_source("let r = {alpha: 1}", &config).unwrap();
    assert_eq!(fits, "let r = { alpha: 1 }\n");
}

#[test]
fn estimates_one_line_widths() {
    let source = "{a:1,  b:   2}";
    let flat = vec![
        (Span::new(0, 1), FlatShape::Record),
        (Span::new(1, 2), FlatShape::String),
        (Span::new(2, 3), FlatShape::Record),
        (Span::new(3, 4), FlatShape::Int),
        (Span::new(4, 7), FlatShape::Record),
        (Span::new(7, 8), FlatShape::String),
        (Span::new(8, 12), FlatShape::Record),
        (Span::new(12, 13), FlatShape::Int),
        (Span::new(13, 14), FlatShape::Record),
    ];
    let toks = preprocess_tokens(source, &flat);
    assert_eq!(estimate_width(&toks, 1, BracketClass::Collection), (12, false));
    assert_eq!(estimate_width(&toks, 1, BracketClass::Block), (10, false));
}

#[test]
fn locations_count_lines_and_characters() {
    let src: Vec<char> = "ab\ncd".chars().collect();
    assert_eq!(location_of(&src, 4), SourceLocation { line: 2, column: 2 });
    assert_eq!(location_of(&src, 0), SourceLocation { line: 1, column: 1 });
    let wide: Vec<char> = "é\nx".chars().collect();
    assert_eq!(location_of(&wide, 3), SourceLocation { line: 2, column: 1 });
    assert_eq!(location_of(&wide, 2), SourceLocation { line: 1, column: 2 });
}

#[test]
fn blank_lines_between_match_arms_shrink_to_one() {
    let config = Config::default();
    let r = format_source("match $x {\n1 => \"a\",\n\n\n2 => \"b\"\n}", &config).unwrap();
    assert_eq!(r, "match $x {\n  1 => \"a\",\n\n  2 => \"b\"\n}\n");
}

#[test]
fn estimates_count_bytes() {
    let flat = vec![
        (Span::new(0, 1), FlatShape::List),
        (Span::new(1, 3), FlatShape::String),
        (Span::new(3, 4), FlatShape::List),
    ];
    let toks = preprocess_tokens("[é]", &flat);
    assert_eq!(estimate_width(&toks, 1, BracketClass::Collection), (4, false));
}

#[test]
fn a_multi_close_keeps_its_comma() {
    let config = Config::default();
    let flat = vec![(Span::new(0, 5), FlatShape::Block)];
    assert_eq!(format_tokens(",\n}\n}", &flat, &config), ",\n}\n}\n");
}

#[test]
fn dots_in_a_gap_are_set_off_by_spaces() {
    let config = Config::default();
    let flat = vec![(Span::new(0, 4), FlatShape::Variable(nu_protocol::VarId::new(0))), (Span::new(5, 8), FlatShape::String)];
    assert_eq!(format_tokens("$env.FOO", &flat, &config), "$env . FOO\n");
}

#[test]
fn the_first_error_that_is_not_a_resolution_error_fails() {
    assert_eq!(first_syntax_error(&vec![]), None);
    assert_eq!(
        first_syntax_error(&vec![ParseErrorKind::VariableNotFound, ParseErrorKind::UnknownCommand]),
        None
    );
    assert_eq!(
        first_syntax_error(&vec![ParseErrorKind::ModuleNotFound, ParseErrorKind::Other, ParseErrorKind::Other]),
        Some(1)
    );
}
