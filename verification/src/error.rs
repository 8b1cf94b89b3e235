//! The failures of a build pass. Each of them ends the pass.

use vstd::prelude::*;

verus! {

/// Why a build pass failed.
#[derive(Debug, Clone, PartialEq, Eq)]
pub enum BuildError {
    /// Several items share an identifier and none of them can be preferred.
    AmbiguousResolution,
    /// No loaded document holds the identifier or the path.
    UnknownIdentifier,
    /// The type has a shape that has no wire format.
    UnsupportedShape,
    /// Paired override attributes disagree.
    ConfigurationMismatch,
    /// The document of the named module is needed and has not been loaded.
    MissingDocument(String),
}

/// The mathematical model of a `BuildError`.
pub enum BuildErrorView {
    AmbiguousResolution,
    UnknownIdentifier,
    UnsupportedShape,
    ConfigurationMismatch,
    MissingDocument(Seq<char>),
}

impl View for BuildError {
    type V = BuildErrorView;

    open spec fn view(&self) -> BuildErrorView {
        match self {
            BuildError::AmbiguousResolution => BuildErrorView::AmbiguousResolution,
            BuildError::UnknownIdentifier => BuildErrorView::UnknownIdentifier,
            BuildError::UnsupportedShape => BuildErrorView::UnsupportedShape,
            BuildError::ConfigurationMismatch => BuildErrorView::ConfigurationMismatch,
            BuildError::MissingDocument(name) => BuildErrorView::MissingDocument(name@),
        }
    }
}

/// The text that describes the failure `e`.
pub open spec fn error_text(e: BuildErrorView) -> Seq<char> {
    match e {
        BuildErrorView::AmbiguousResolution => "cannot decide between several items with the same identifier"@,
        BuildErrorView::UnknownIdentifier => "no loaded document holds the identifier"@,
        BuildErrorView::UnsupportedShape => "the type has no wire format"@,
        BuildErrorView::ConfigurationMismatch => "the override attributes of a field disagree"@,
        BuildErrorView::MissingDocument(name) => "failed to find docs for "@ + name,
    }
}

impl BuildError {
    /// A copy of this failure.
    pub fn duplicate(&self) -> (r: BuildError)
        ensures
            r@ == self@,
    {
        match self {
            BuildError::AmbiguousResolution => BuildError::AmbiguousResolution,
            BuildError::UnknownIdentifier => BuildError::UnknownIdentifier,
            BuildError::UnsupportedShape => BuildError::UnsupportedShape,
            BuildError::ConfigurationMismatch => BuildError::ConfigurationMismatch,
            BuildError::MissingDocument(name) => BuildError::MissingDocument(name.clone()),
        }
    }

    /// The text that describes this failure.
    pub fn message(&self) -> (r: String)
        ensures
            r@ == error_text(self@),
    {
        match self {
            BuildError::AmbiguousResolution => String::from_str(
                "cannot decide between several items with the same identifier",
            ),
            BuildError::UnknownIdentifier => String::from_str(
                "no loaded document holds the identifier",
            ),
            BuildError::UnsupportedShape => String::from_str("the type has no wire format"),
            BuildError::ConfigurationMismatch => String::from_str(
                "the override attributes of a field disagree",
            ),
            BuildError::MissingDocument(name) => {
                let mut out = String::from_str("failed to find docs for ");
                out.append(name.as_str());
                out
            },
        }
    }
}

} // verus!
