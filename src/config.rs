//! Formatting options and their validation.
use vstd::prelude::*;

use crate::text::{chars_of, decimal, push_decimal, string_of};

verus! {

/// Preferred quote style for string literals.
#[derive(Clone, Copy, Debug, PartialEq, Eq, Structural)]
pub enum QuoteStyle {
    /// Keep each literal's quotes as written.
    Preserve,
    /// Prefer double quotes where no escaping is needed.
    Double,
    /// Prefer single quotes where no escaping is needed.
    Single,
}

impl Default for QuoteStyle {
    fn default() -> (r: QuoteStyle)
        ensures
            r == QuoteStyle::Double,
    {
        QuoteStyle::Double
    }
}

/// Whether single-line records and lists keep one space inside their brackets.
#[derive(Clone, Copy, Debug, PartialEq, Eq, Structural)]
pub enum BracketSpacing {
    /// `{ a: 1 }`, `[ 1, 2 ]`.
    Spaced,
    /// `{a: 1}`, `[1, 2]`.
    Compact,
}

impl Default for BracketSpacing {
    fn default() -> (r: BracketSpacing)
        ensures
            r == BracketSpacing::Spaced,
    {
        BracketSpacing::Spaced
    }
}

/// Whether each element line of a multi-line record or list ends with a comma.
#[derive(Clone, Copy, Debug, PartialEq, Eq, Structural)]
pub enum TrailingComma {
    /// Every element line ends with a comma, the last one included.
    Always,
    /// No comma is added at the end of element lines.
    Never,
}

impl Default for TrailingComma {
    fn default() -> (r: TrailingComma)
        ensures
            r == TrailingComma::Always,
    {
        TrailingComma::Always
    }
}

/// A configuration value out of its range.
#[derive(Clone, Debug)]
pub struct ConfigError {
    /// What is wrong, in words.
    pub message: String,
}

impl ConfigError {
    /// The message, as it is shown to users.
    pub fn to_string(&self) -> (r: String)
        ensures
            r@ == self.message@,
    {
        self.message.clone()
    }
}

/// Formatting options. They stay fixed for the duration of one format call.
#[derive(Clone, Copy, Debug)]
pub struct Config {
    /// Spaces per indentation level, from 1 to 16.
    pub indent_width: usize,
    /// Soft maximum width of an output line, from 20 to 500.
    pub max_width: usize,
    /// Preferred quote style for string literals.
    pub quote_style: QuoteStyle,
    /// Spacing inside single-line brackets.
    pub bracket_spacing: BracketSpacing,
    /// Commas at the end of multi-line element lines.
    pub trailing_comma: TrailingComma,
}

/// `indent_width` lies in its range.
pub open spec fn indent_width_ok(w: usize) -> bool {
    1 <= w <= 16
}

/// `max_width` lies in its range.
pub open spec fn max_width_ok(w: usize) -> bool {
    20 <= w <= 500
}

impl Config {
    /// Every option lies in its range.
    pub open spec fn valid(&self) -> bool {
        indent_width_ok(self.indent_width) && max_width_ok(self.max_width)
    }

    /// Checks that every option lies in its range; the first one that does not is reported.
    pub fn validate(&self) -> (r: Result<(), ConfigError>)
        ensures
            r is Ok <==> self.valid(),
            !indent_width_ok(self.indent_width) ==> (r matches Err(e) && e.message@
                == "indent_width must be between 1 and 16, got "@ + decimal(
                self.indent_width as nat,
            )),
            indent_width_ok(self.indent_width) && !max_width_ok(self.max_width) ==> (r matches Err(
                e,
            ) && e.message@ == "max_width must be between 20 and 500, got "@ + decimal(
                self.max_width as nat,
            )),
    {
        if self.indent_width == 0 || self.indent_width > 16 {
            let mut m = chars_of("indent_width must be between 1 and 16, got ");
            push_decimal(&mut m, self.indent_width);
            return Err(ConfigError { message: string_of(&m) });
        }
        if self.max_width < 20 || self.max_width > 500 {
            let mut m = chars_of("max_width must be between 20 and 500, got ");
            push_decimal(&mut m, self.max_width);
            return Err(ConfigError { message: string_of(&m) });
        }
        Ok(())
    }
}

impl Default for Config {
    fn default() -> (r: Config)
        ensures
            r.indent_width == 2,
            r.max_width == 100,
            r.quote_style == QuoteStyle::Double,
            r.bracket_spacing == BracketSpacing::Spaced,
            r.trailing_comma == TrailingComma::Always,
    {
        Config {
            indent_width: 2,
            max_width: 100,
            quote_style: QuoteStyle::Double,
            bracket_spacing: BracketSpacing::Spaced,
            trailing_comma: TrailingComma::Always,
        }
    }
}

} // verus!
