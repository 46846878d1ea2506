//! The analyzer that turns source text into a flat stream of classified spans: the types of
//! its crates that the library handles, and the calls it makes into them.
use std::sync::Arc;

use nu_parser::FlatShape;
use nu_protocol::ast::Block;
use nu_protocol::engine::{EngineState, StateWorkingSet};
use nu_protocol::ParseError as AnalyzerError;
use nu_protocol::{Id, Span};
use vstd::prelude::*;

verus! {

/// A byte range of the source; its fields are plain offsets.
#[verifier::external_type_specification]
pub struct ExSpan(Span);

/// An identifier of the analyzer's tables, carried in some shapes.
#[verifier::external_type_specification]
#[verifier::external_body]
#[verifier::reject_recursive_types(M)]
#[verifier::reject_recursive_types(V)]
pub struct ExId<M, V>(Id<M, V>);

/// The marker of variable identifiers.
#[verifier::external_type_specification]
#[verifier::external_body]
pub struct ExVarMarker(nu_protocol::marker::Var);

/// The marker of declaration identifiers.
#[verifier::external_type_specification]
#[verifier::external_body]
pub struct ExDeclMarker(nu_protocol::marker::Decl);

/// The syntactic class of a span; its variants are read by the library.
#[verifier::external_type_specification]
pub struct ExFlatShape(FlatShape);

/// The analyzer's engine state: the commands that parsing knows.
#[verifier::external_type_specification]
#[verifier::external_body]
pub struct ExEngineState(EngineState);

/// A parse in progress over an engine state.
#[verifier::external_type_specification]
#[verifier::external_body]
pub struct ExStateWorkingSet<'a>(StateWorkingSet<'a>);

/// A parsed block.
#[verifier::external_type_specification]
#[verifier::external_body]
pub struct ExBlock(Block);

/// An error that the analyzer reports.
#[verifier::external_type_specification]
#[verifier::external_body]
pub struct ExParseError(nu_protocol::ParseError);

/// Relies on `nu_cmd_lang::create_default_context`: builds an engine state with the language's
/// core commands. Nothing is promised of it.
pub assume_specification[ nu_cmd_lang::create_default_context ]() -> EngineState;

/// Relies on `StateWorkingSet::new`: a fresh working set over an engine state.
pub assume_specification<'a>[ StateWorkingSet::<'a>::new ](
    permanent_state: &'a EngineState,
) -> StateWorkingSet<'a>;

/// Relies on `nu_parser::parse`: parses `contents` into a block and records the errors it
/// meets in the working set.
pub assume_specification[ nu_parser::parse ](
    working_set: &mut StateWorkingSet,
    fname: Option<&str>,
    contents: &[u8],
    scoped: bool,
) -> Arc<Block>;

/// Relies on `nu_parser::flatten_block`: the block's spans with their shapes, in source order.
pub assume_specification[ nu_parser::flatten_block ](
    working_set: &StateWorkingSet,
    block: &Block,
) -> Vec<(Span, FlatShape)>;

/// Relies on `ParseError::span`: where in the source the error lies.
pub assume_specification[ nu_protocol::ParseError::span ](e: &nu_protocol::ParseError) -> Span;

/// The kinds of analyzer error that the formatter tells apart.
#[derive(Clone, Copy, Debug, PartialEq, Eq, Structural)]
pub enum ParseErrorKind {
    VariableNotFound,
    ModuleNotFound,
    ModuleOrOverlayNotFound,
    ActiveOverlayNotFound,
    ExportNotFound,
    FileNotFound,
    SourcedFileNotFound,
    RegisteredFileNotFound,
    PluginNotFound,
    UnknownCommand,
    ExtraPositional,
    InputMismatch,
    /// Any other error.
    Other,
}

/// Relies on the variants of `nu_protocol::ParseError`: names the variant of `e`, one arm for
/// each kind, and `Other` for the rest.
#[verifier::external_body]
pub(crate) fn error_kind(e: &AnalyzerError) -> ParseErrorKind {
    match e {
        AnalyzerError::VariableNotFound(..) => ParseErrorKind::VariableNotFound,
        AnalyzerError::ModuleNotFound(..) => ParseErrorKind::ModuleNotFound,
        AnalyzerError::ModuleOrOverlayNotFound(..) => ParseErrorKind::ModuleOrOverlayNotFound,
        AnalyzerError::ActiveOverlayNotFound(..) => ParseErrorKind::ActiveOverlayNotFound,
        AnalyzerError::ExportNotFound(..) => ParseErrorKind::ExportNotFound,
        AnalyzerError::FileNotFound(..) => ParseErrorKind::FileNotFound,
        AnalyzerError::SourcedFileNotFound(..) => ParseErrorKind::SourcedFileNotFound,
        AnalyzerError::RegisteredFileNotFound(..) => ParseErrorKind::RegisteredFileNotFound,
        AnalyzerError::PluginNotFound { .. } => ParseErrorKind::PluginNotFound,
        AnalyzerError::UnknownCommand(..) => ParseErrorKind::UnknownCommand,
        AnalyzerError::ExtraPositional(..) => ParseErrorKind::ExtraPositional,
        AnalyzerError::InputMismatch(..) => ParseErrorKind::InputMismatch,
        _ => ParseErrorKind::Other,
    }
}

/// Relies on the `parse_errors` field of `StateWorkingSet`: the errors that parsing recorded,
/// in order.
#[verifier::external_body]
pub(crate) fn parse_errors<'a>(ws: &'a StateWorkingSet) -> &'a Vec<AnalyzerError> {
    &ws.parse_errors
}

/// Relies on `miette::Diagnostic::help` for `nu_protocol::ParseError`: the error's hint, as
/// text, if it has one.
#[verifier::external_body]
pub(crate) fn help_of(e: &AnalyzerError) -> Option<String> {
    miette::Diagnostic::help(e).map(|h| h.to_string())
}

} // verus!
