use nufmt::{format_source, Config, QuoteStyle};

#[test]
fn format_test_simple_command() {
    let source = "ls";
    let config = Config::default();
    let result = format_source(source, &config).unwrap();
    assert_eq!(result, "ls\n");
}

#[test]
fn format_test_pipeline() {
    let source = "ls|sort-by name";
    let config = Config::default();
    let result = format_source(source, &config).unwrap();
    assert_eq!(result, "ls | sort-by name\n");
}

#[test]
fn format_test_trailing_newline() {
    let source = "echo hello";
    let config = Config::default();
    let result = format_source(source, &config).unwrap();
    assert!(result.ends_with('\n'));
}

#[test]
fn format_test_block_indentation() {
    let source = "if true {\necho hello\n}";
    let config = Config::default();
    let result = format_source(source, &config).unwrap();
    assert_eq!(result, "if true {\n  echo hello\n}\n");
}

#[test]
fn format_test_nested_blocks() {
    let source = "if true {\nif false {\necho nested\n}\n}";
    let config = Config::default();
    let result = format_source(source, &config).unwrap();
    assert_eq!(result, "if true {\n  if false {\n    echo nested\n  }\n}\n");
}

#[test]
fn format_test_let_statement() {
    let source = "let x = 1 + 2";
    let config = Config::default();
    let result = format_source(source, &config).unwrap();
    assert_eq!(result, "let x = 1 + 2\n");
}

#[test]
fn format_test_record_spacing() {
    let source = "{a:1,  b:   2}";
    let config = Config::default();
    let result = format_source(source, &config).unwrap();
    assert_eq!(result, "{ a: 1, b: 2 }\n");
}

#[test]
fn format_test_list_spacing() {
    let source = "[1,  2,   3]";
    let config = Config::default();
    let result = format_source(source, &config).unwrap();
    assert_eq!(result, "[ 1, 2, 3 ]\n");
}

#[test]
fn format_test_multiline_record() {
    let source = "{\na: 1\nb: 2\n}";
    let config = Config::default();
    let result = format_source(source, &config).unwrap();
    assert_eq!(result, "{\n  a: 1,\n  b: 2,\n}\n");
}

#[test]
fn format_test_multiline_list() {
    let source = "[\n1\n2\n3\n]";
    let config = Config::default();
    let result = format_source(source, &config).unwrap();
    assert_eq!(result, "[\n  1,\n  2,\n  3,\n]\n");
}

#[test]
fn format_test_closure_params() {
    let source = "{|x, y| $x + $y}";
    let config = Config::default();
    let result = format_source(source, &config).unwrap();
    assert!(
        result.contains("|x, y|"),
        "Should preserve closure params: {result}"
    );
}

#[test]
fn mod_test_simple_command() {
    let source = "ls";
    let config = Config::default();
    let result = format_source(source, &config).unwrap();
    assert_eq!(result, "ls\n");
}

#[test]
fn mod_test_pipeline() {
    let source = "ls|sort-by name";
    let config = Config::default();
    let result = format_source(source, &config).unwrap();
    assert_eq!(result, "ls | sort-by name\n");
}

#[test]
fn mod_test_trailing_newline() {
    let source = "echo hello";
    let config = Config::default();
    let result = format_source(source, &config).unwrap();
    assert!(result.ends_with('\n'));
}

#[test]
fn mod_test_block_indentation() {
    let source = "if true {\necho hello\n}";
    let config = Config::default();
    let result = format_source(source, &config).unwrap();
    assert_eq!(result, "if true {\n  echo hello\n}\n");
}

#[test]
fn mod_test_nested_blocks() {
    let source = "if true {\nif false {\necho nested\n}\n}";
    let config = Config::default();
    let result = format_source(source, &config).unwrap();
    assert_eq!(result, "if true {\n  if false {\n    echo nested\n  }\n}\n");
}

#[test]
fn mod_test_let_statement() {
    let source = "let x = 1 + 2";
    let config = Config::default();
    let result = format_source(source, &config).unwrap();
    assert_eq!(result, "let x = 1 + 2\n");
}

#[test]
fn mod_test_record_spacing() {
    let source = "{a:1,  b:   2}";
    let config = Config::default();
    let result = format_source(source, &config).unwrap();
    assert_eq!(result, "{ a: 1, b: 2 }\n");
}

#[test]
fn mod_test_list_spacing() {
    let source = "[1,  2,   3]";
    let config = Config::default();
    let result = format_source(source, &config).unwrap();
    assert_eq!(result, "[ 1, 2, 3 ]\n");
}

#[test]
fn mod_test_multiline_record() {
    let source = "{\na: 1\nb: 2\n}";
    let config = Config::default();
    let result = format_source(source, &config).unwrap();
    assert_eq!(result, "{\n  a: 1,\n  b: 2,\n}\n");
}

#[test]
fn mod_test_multiline_list() {
    let source = "[\n1\n2\n3\n]";
    let config = Config::default();
    let result = format_source(source, &config).unwrap();
    assert_eq!(result, "[\n  1,\n  2,\n  3,\n]\n");
}

#[test]
fn mod_test_closure_params() {
    let source = "{|x, y| $x + $y}";
    let config = Config::default();
    let result = format_source(source, &config).unwrap();
    assert!(
        result.contains("|x, y|"),
        "Should preserve closure params: {result}"
    );
}

#[test]
fn test_operator_spacing() {
    let source = "let x = 1 + 2";
    let config = Config::default();
    let result = format_source(source, &config).unwrap();
    assert_eq!(result, "let x = 1 + 2\n");
}

#[test]
fn test_line_comment() {
    let source = "# this is a comment\nls";
    let config = Config::default();
    let result = format_source(source, &config).unwrap();
    assert_eq!(result, "# this is a comment\nls\n");
}

#[test]
fn test_inline_comment() {
    let source = "ls # list files";
    let config = Config::default();
    let result = format_source(source, &config).unwrap();
    assert_eq!(result, "ls # list files\n");
}

#[test]
fn test_quote_style_single() {
    let source = r#"echo "hello""#;
    let mut config = Config::default();
    config.quote_style = QuoteStyle::Single;
    let result = format_source(source, &config).unwrap();
    assert_eq!(result, "echo 'hello'\n");
}

#[test]
fn test_quote_style_double() {
    let source = "echo 'hello'";
    let mut config = Config::default();
    config.quote_style = QuoteStyle::Double;
    let result = format_source(source, &config).unwrap();
    assert_eq!(result, "echo \"hello\"\n");
}

#[test]
fn test_quote_style_preserve_when_needed() {
    let source = r#"echo "it's""#;
    let mut config = Config::default();
    config.quote_style = QuoteStyle::Single;
    let result = format_source(source, &config).unwrap();
    assert_eq!(result, "echo \"it's\"\n");
}

#[test]
fn test_quote_preserve_mode() {
    let source = r#"echo "hello""#;
    let mut config = Config::default();
    config.quote_style = QuoteStyle::Preserve;
    let result = format_source(source, &config).unwrap();
    assert_eq!(result, "echo \"hello\"\n");
}

#[test]
fn test_quote_preserve_single() {
    let source = "echo 'hello'";
    let mut config = Config::default();
    config.quote_style = QuoteStyle::Preserve;
    let result = format_source(source, &config).unwrap();
    assert_eq!(result, "echo 'hello'\n");
}

#[test]
fn test_quote_double_with_double_quote_inside() {
    let source = r#"echo 'say "hi"'"#;
    let mut config = Config::default();
    config.quote_style = QuoteStyle::Double;
    let result = format_source(source, &config).unwrap();
    assert_eq!(result, "echo 'say \"hi\"'\n");
}

#[test]
fn test_quote_single_with_backslash() {
    let source = r#"echo "hello\nworld""#;
    let mut config = Config::default();
    config.quote_style = QuoteStyle::Single;
    let result = format_source(source, &config).unwrap();
    assert_eq!(result, "echo \"hello\\nworld\"\n");
}

#[test]
fn test_quote_double_with_backslash() {
    let source = r#"echo 'C:\path'"#;
    let mut config = Config::default();
    config.quote_style = QuoteStyle::Double;
    let result = format_source(source, &config).unwrap();
    assert_eq!(result, "echo 'C:\\path'\n");
}

#[test]
fn test_quote_empty_string_double() {
    let source = r#"echo ''"#;
    let mut config = Config::default();
    config.quote_style = QuoteStyle::Double;
    let result = format_source(source, &config).unwrap();
    assert_eq!(result, "echo \"\"\n");
}

#[test]
fn test_quote_empty_string_single() {
    let source = r#"echo """#;
    let mut config = Config::default();
    config.quote_style = QuoteStyle::Single;
    let result = format_source(source, &config).unwrap();
    assert_eq!(result, "echo ''\n");
}

#[test]
fn test_quote_whitespace_only() {
    let source = r#"echo "   ""#;
    let mut config = Config::default();
    config.quote_style = QuoteStyle::Single;
    let result = format_source(source, &config).unwrap();
    assert_eq!(result, "echo '   '\n");
}
