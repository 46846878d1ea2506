//! A formatter for Nushell source code.
//!
//! The layout engine takes the analyzer's flat token stream together with the
//! source text and lays it out again with canonical spacing, indentation and
//! quoting. Every stage of it is verified against the specifications stated
//! beside the code.
use vstd::prelude::*;

pub mod analyzer;
pub mod block;
pub mod closure;
pub mod collection;
pub mod config;
pub mod delim;
pub mod engine;
pub mod error;
pub mod estimate;
pub mod format;
pub mod gap;
pub mod layout;
pub mod quote;
pub mod text;
pub mod token;

pub use config::{BracketSpacing, Config, ConfigError, QuoteStyle, TrailingComma};
pub use error::{FormatError, SourceLocation};
pub use debug::debug_tokens;
pub use format::{format_source, format_tokens};
pub mod debug;
