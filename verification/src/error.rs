//! Error taxonomies, split by phase: loading a line function versus running it.

use vstd::prelude::*;

verus! {

/// Errors raised while constructing a `LineFunction` from its configuration.
#[derive(Debug)]
pub enum PluginLoadError {
    /// A position relative to a match was used on a function with no pattern.
    IndexGivenWithoutPattern,
    /// The regex engine rejected the pattern source; the detail is its message.
    InvalidRegex(String),
}

/// Errors raised while a line function runs. They are returned as a list:
/// one failing effect never stops the effects, functions or lines after it.
#[derive(Debug)]
pub enum FunctionExecutionError {
    /// Lazy compilation failed after construction; the detail is the engine's
    /// message. Reachable only when load-time validation was bypassed.
    InvalidRegex(String),
    /// A resolved index is negative, exceeds the line length, or a replace
    /// range is inverted.
    EffectIndexOutOfBounds,
    /// A match-relative index was evaluated with no match offset available.
    EffectIndexGivenWithoutRegex,
}

/// The mathematical shadow of `FunctionExecutionError`: the engine's message
/// is carried as a sequence of characters, so that lists of errors can be
/// compared in contracts.
pub enum ErrView {
    InvalidRegex(Seq<char>),
    EffectIndexOutOfBounds,
    EffectIndexGivenWithoutRegex,
}

impl FunctionExecutionError {
    pub open spec fn view_err(self) -> ErrView {
        match self {
            FunctionExecutionError::InvalidRegex(m) => ErrView::InvalidRegex(m@),
            FunctionExecutionError::EffectIndexOutOfBounds => ErrView::EffectIndexOutOfBounds,
            FunctionExecutionError::EffectIndexGivenWithoutRegex => {
                ErrView::EffectIndexGivenWithoutRegex
            },
        }
    }

    /// A human-readable description, since the error type itself carries none.
    pub fn describe(&self) -> String {
        match self {
            FunctionExecutionError::InvalidRegex(detail) => detail.clone(),
            FunctionExecutionError::EffectIndexOutOfBounds => {
                "a resolved effect index lies outside the line".to_owned()
            },
            FunctionExecutionError::EffectIndexGivenWithoutRegex => {
                "a match-relative index was evaluated without a match".to_owned()
            },
        }
    }
}

/// The views of a list of run-time errors, in order.
pub open spec fn errs_view(s: Seq<FunctionExecutionError>) -> Seq<ErrView> {
    s.map_values(|e: FunctionExecutionError| e.view_err())
}

/// The engine message carried by an `InvalidRegex` error; empty for the
/// other variants.
pub open spec fn invalid_msg(e: FunctionExecutionError) -> Seq<char> {
    match e {
        FunctionExecutionError::InvalidRegex(m) => m@,
        _ => Seq::empty(),
    }
}

impl PluginLoadError {
    /// A human-readable description, since the error type itself carries none.
    pub fn describe(&self) -> String {
        match self {
            PluginLoadError::IndexGivenWithoutPattern => {
                "a match-relative index was given, but the function has no pattern".to_owned()
            },
            PluginLoadError::InvalidRegex(detail) => detail.clone(),
        }
    }
}

} // verus!
