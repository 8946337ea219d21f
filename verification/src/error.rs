//! The errors of sanitising and rendering.

use vstd::prelude::*;

verus! {

/// Why a formula is refused before it is rendered.
#[derive(Debug, Clone, Copy, PartialEq, Eq, Structural)]
pub enum SanitizeError {
    /// The notation holds syntax that is not supported. No input is refused
    /// for it yet: inference accepts every formula.
    ForbiddenSyntax,
}

impl SanitizeError {
    /// What the error means, in words.
    pub fn description(&self) -> (text: &'static str)
        ensures
            text@ == "Notation contains unsupported LaTeX syntax"@,
    {
        match self {
            SanitizeError::ForbiddenSyntax => "Notation contains unsupported LaTeX syntax",
        }
    }
}

/// Why a document could not be composed or rendered.
#[derive(Debug, Clone, Copy, PartialEq, Eq, Structural)]
pub enum RenderingError {
    /// A template that the document refers to is absent or unreadable.
    MissingTemplate,
    /// A file of the workspace could not be written or read.
    IOError,
    /// An external tool could not be started, or ended with a status other than 0.
    ToolError,
    /// An external tool ran longer than its bound.
    Timeout,
}

} // verus!
