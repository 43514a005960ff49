//! The formatter's decision: text that compiles is kept, other text is refused.
//!
//! The formatter is syntax-preserving. It never emits text that the compiler has
//! something to say about.

use vstd::prelude::*;

use crate::diag::Diagnostic;

verus! {

/// Why nothing was emitted.
#[derive(Debug, Clone, Copy, PartialEq, Eq, Structural)]
pub enum FormatError {
    /// The compiler reported diagnostics on the text.
    ParseErrors,
}

impl FormatError {
    pub fn message(self) -> (text: &'static str)
        ensures
            text@ == "format failed: parse errors"@,
    {
        match self {
            FormatError::ParseErrors => "format failed: parse errors",
        }
    }
}

/// What formatting gives for a text and the compiler's diagnostics on it.
pub open spec fn formatted(source: Seq<char>, findings: nat) -> Result<Seq<char>, FormatError> {
    if findings == 0 {
        Ok(source)
    } else {
        Err(FormatError::ParseErrors)
    }
}

/// The formatted text: the source itself where the compiler had nothing to say.
pub fn format_source<'s>(source: &'s str, diagnostics: &Vec<Diagnostic>) -> (result: Result<
    &'s str,
    FormatError,
>)
    ensures
        match result {
            Ok(text) => formatted(source@, diagnostics@.len()) == Ok::<Seq<char>, FormatError>(text@),
            Err(error) => formatted(source@, diagnostics@.len()) == Err::<Seq<char>, FormatError>(
                error,
            ),
        },
{
    if diagnostics.len() == 0 {
        Ok(source)
    } else {
        Err(FormatError::ParseErrors)
    }
}

/// Formatted text is the text that was given, so that formatting it again
/// changes nothing.
pub proof fn formatting_preserves_and_is_idempotent(source: Seq<char>, findings: nat)
    ensures
        formatted(source, findings) matches Ok(text) ==> text == source && formatted(
            text,
            findings,
        ) == Ok::<Seq<char>, FormatError>(text),
{
}

} // verus!
