use vstd::prelude::*;

use convert_case::{Case, Casing};

verus! {

/// The casing policies a struct-level `rename_all` modifier can ask for.
#[derive(Debug, Clone, Copy, PartialEq, Eq, Structural)]
pub enum RenameAll {
    CamelCase,
    SnakeCase,
    UpperCase,
    LowerCase,
    PascalCase,
}

/// A distinct index for each casing policy, so that `recased` can be
/// spoken of over plain values.
pub open spec fn policy_id(p: RenameAll) -> int {
    match p {
        RenameAll::CamelCase => 0,
        RenameAll::SnakeCase => 1,
        RenameAll::UpperCase => 2,
        RenameAll::LowerCase => 3,
        RenameAll::PascalCase => 4,
    }
}

/// What `convert_case` turns `ident` into under the policy with index
/// `policy`: a pure word-splitting case transform, left abstract here.
pub uninterp spec fn recased(policy: int, ident: Seq<char>) -> Seq<char>;

/// Relies on convert_case's `Casing::to_case`: the returned string is a
/// function of the input string and the chosen case alone.
#[verifier::external_body]
fn apply_case(policy: &RenameAll, s: &str) -> (r: String)
    ensures
        r@ == recased(policy_id(*policy), s@),
{
    let case = match policy {
        RenameAll::CamelCase => Case::Camel,
        RenameAll::SnakeCase => Case::Snake,
        RenameAll::UpperCase => Case::Upper,
        RenameAll::LowerCase => Case::Lower,
        RenameAll::PascalCase => Case::Pascal,
    };
    s.to_case(case)
}

impl RenameAll {
    /// Apply this casing policy to an identifier.
    pub fn to_case(&self, s: &str) -> (r: String)
        ensures
            r@ == recased(policy_id(*self), s@),
    {
        apply_case(self, s)
    }
}

} // verus!
