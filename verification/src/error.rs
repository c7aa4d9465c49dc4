use vstd::prelude::*;

verus! {

/// A modifier list that the resolver refuses, and why.
///
/// Every variant carries the offending modifier key, so that the
/// surrounding tool can report which modifier broke the build.
#[derive(Debug, PartialEq, Eq)]
pub enum BindError {
    /// A modifier key outside the recognized set.
    UnrecognizedModifier(String),
    /// A recognized key whose value is missing, present where none is
    /// allowed, or outside the fixed set of casing-policy tokens.
    ModifierSyntax(String),
}

/// The mathematical value of a `BindError`: the same tag over the key's
/// character sequence.
pub ghost enum BindErrorView {
    UnrecognizedModifier { key: Seq<char> },
    ModifierSyntax { key: Seq<char> },
}

impl View for BindError {
    type V = BindErrorView;

    open spec fn view(&self) -> BindErrorView {
        match self {
            BindError::UnrecognizedModifier(k) => BindErrorView::UnrecognizedModifier { key: k@ },
            BindError::ModifierSyntax(k) => BindErrorView::ModifierSyntax { key: k@ },
        }
    }
}

impl BindError {
    /// The offending modifier key.
    pub fn key(&self) -> (r: &String)
        ensures
            self@ matches BindErrorView::UnrecognizedModifier { key } ==> r@ == key,
            self@ matches BindErrorView::ModifierSyntax { key } ==> r@ == key,
    {
        match self {
            BindError::UnrecognizedModifier(k) => k,
            BindError::ModifierSyntax(k) => k,
        }
    }
}

} // verus!
