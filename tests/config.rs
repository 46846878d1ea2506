use nufmt::{BracketSpacing, Config, QuoteStyle, TrailingComma};

#[test]
fn config_test_default_config_is_valid() {
    let config = Config::default();
    assert!(config.validate().is_ok());
}

#[test]
fn config_test_indent_width_zero_invalid() {
    let config = Config {
        indent_width: 0,
        ..Default::default()
    };
    assert!(config.validate().is_err());
}

#[test]
fn config_test_indent_width_too_large_invalid() {
    let config = Config {
        indent_width: 17,
        ..Default::default()
    };
    assert!(config.validate().is_err());
}

#[test]
fn config_test_max_width_too_small_invalid() {
    let config = Config {
        max_width: 10,
        ..Default::default()
    };
    assert!(config.validate().is_err());
}

#[test]
fn config_test_max_width_too_large_invalid() {
    let config = Config {
        max_width: 501,
        ..Default::default()
    };
    assert!(config.validate().is_err());
}

#[test]
fn config_test_valid_custom_config() {
    let config = Config {
        indent_width: 2,
        max_width: 80,
        quote_style: QuoteStyle::Single,
        bracket_spacing: BracketSpacing::Spaced,
        trailing_comma: TrailingComma::Always,
    };
    assert!(config.validate().is_ok());
}

#[test]
fn config_defaults() {
    let config = Config::default();
    assert_eq!(config.indent_width, 2);
    assert_eq!(config.max_width, 100);
    assert_eq!(config.quote_style, QuoteStyle::Double);
    assert_eq!(config.bracket_spacing, BracketSpacing::Spaced);
    assert_eq!(config.trailing_comma, TrailingComma::Always);
}

#[test]
fn config_error_messages() {
    let config = Config {
        indent_width: 17,
        max_width: 10,
        ..Default::default()
    };
    let err = config.validate().unwrap_err();
    assert_eq!(err.to_string(), "indent_width must be between 1 and 16, got 17");
    let config = Config {
        max_width: 501,
        ..Default::default()
    };
    let err = config.validate().unwrap_err();
    assert_eq!(err.message, "max_width must be between 20 and 500, got 501");
}

#[test]
fn config_range_edges() {
    for (w, ok) in [(1, true), (16, true), (0, false), (17, false)] {
        let config = Config {
            indent_width: w,
            ..Default::default()
        };
        assert_eq!(config.validate().is_ok(), ok);
    }
    for (w, ok) in [(20, true), (500, true), (19, false), (501, false)] {
        let config = Config {
            max_width: w,
            ..Default::default()
        };
        assert_eq!(config.validate().is_ok(), ok);
    }
}
