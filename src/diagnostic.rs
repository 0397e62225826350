use vstd::prelude::*;

use crate::span::Span;

verus! {

/// How far a suggested edit can be trusted.
#[derive(Clone, Copy, Debug, PartialEq, Eq, Structural)]
pub enum Applicability {
    /// The edit can be applied as it is.
    MachineApplicable,
    /// The edit may be wrong and needs a look before it is applied.
    MaybeIncorrect,
    /// The edit holds placeholders that must be filled in.
    HasPlaceholders,
    /// Nothing is known of the edit.
    Unspecified,
}

/// The checks whose findings this library reports.
#[derive(Clone, Copy, Debug, PartialEq, Eq, Structural)]
pub enum Lint {
    SuspiciousAssignmentFormatting,
    SuspiciousUnaryOpFormatting,
    SuspiciousElseFormatting,
    PossibleMissingElse,
    PossibleMissingComma,
    NeedlessElse,
}

/// A proposed edit: replace the text of `span` with `replacement`.
#[derive(Clone, Debug)]
pub struct Suggestion {
    pub span: Span,
    pub message: String,
    pub replacement: String,
    pub applicability: Applicability,
}

/// A finding, with the edits proposed to fix it and an optional note.
#[derive(Clone, Debug)]
pub struct Diagnostic {
    pub lint: Lint,
    pub span: Span,
    pub message: String,
    pub suggestions: Vec<Suggestion>,
    pub note: Option<String>,
}

/// `MachineApplicable` lowered to `MaybeIncorrect` when the text comes from a macro
/// expansion; `Unspecified` stays as it is.
pub open spec fn for_expansion_spec(app: Applicability, from_expansion: bool) -> Applicability {
    if from_expansion && app != Applicability::Unspecified {
        Applicability::MaybeIncorrect
    } else {
        app
    }
}

/// Adjusts the confidence of a suggestion that takes a snippet: a snippet from a macro
/// expansion makes it `MaybeIncorrect` (unless it is `Unspecified`), and a snippet that could not
/// be read, so that a placeholder stands in for it, makes `MachineApplicable` become
/// `HasPlaceholders`.
pub fn snippet_applicability(app: Applicability, from_expansion: bool, found: bool) -> (r:
    Applicability)
    ensures
        r == (if !found && for_expansion_spec(app, from_expansion) == Applicability::MachineApplicable {
            Applicability::HasPlaceholders
        } else {
            for_expansion_spec(app, from_expansion)
        }),
        from_expansion ==> r != Applicability::MachineApplicable,
{
    let a = if from_expansion && app != Applicability::Unspecified {
        Applicability::MaybeIncorrect
    } else {
        app
    };
    if !found && a == Applicability::MachineApplicable {
        Applicability::HasPlaceholders
    } else {
        a
    }
}

/// String `a` followed by `b`.
pub fn concat(a: &str, b: &str) -> (r: String)
    ensures
        r@ == a@ + b@,
{
    let mut s = String::from_str(a);
    s.append(b);
    s
}

} // verus!
