//! Translate the structural description of a record type into a
//! TypeScript interface declaration: a recursive type-descriptor mapper,
//! resolution of struct- and field-level modifiers, and assembly of the
//! final text with a sorted, duplicate-free import block. Reading the
//! compile-time representation of a struct and writing the generated
//! file are left to the surrounding tool; this crate works on plain
//! values and states what it produces.

use vstd::prelude::*;

pub mod error;
pub mod gen_ts_code;
pub mod order;
pub mod rename_all;
pub mod struc;
pub mod struct_attrs;
pub mod ts_bind;
pub mod ts_map;

verus! {

use crate::order::{insert_sorted, sort_dedup};
use crate::rename_all::RenameAll;

/// Sort the collected import names into emission order and drop
/// duplicates, so that the import block is deterministic whatever order
/// the fields mentioned the names in.
pub fn sort_imports(imports: &mut Vec<String>)
    ensures
        final(imports).deep_view() == sort_dedup(old(imports).deep_view()),
{
    let ghost s = imports.deep_view();
    let mut result: Vec<String> = Vec::new();
    let mut i: usize = 0;
    proof {
        assert(s.subrange(0, 0) =~= Seq::<Seq<char>>::empty());
    }
    while i < imports.len()
        invariant
            i <= imports@.len(),
            s == imports.deep_view(),
            result.deep_view() == sort_dedup(s.subrange(0, i as int)),
        decreases imports@.len() - i,
    {
        let x = imports[i].clone();
        insert_sorted(&mut result, x);
        proof {
            assert(s.subrange(0, i as int + 1).drop_last() =~= s.subrange(0, i as int));
        }
        i = i + 1;
    }
    proof {
        assert(s.subrange(0, s.len() as int) =~= s);
    }
    *imports = result;
}

/// Whether two string slices hold the same characters.
pub fn str_eq(a: &str, b: &str) -> (r: bool)
    ensures
        r == (a@ == b@),
{
    let a_owned: String = a.to_owned();
    let b_owned: String = b.to_owned();
    a_owned == b_owned
}

/// Struct-level modifiers in their raw, just-parsed form: an explicit
/// rename, a casing policy for every field, and an export directory.
#[derive(Debug)]
pub struct StructAttributes {
    pub rename_all: Option<RenameAll>,
    pub rename: Option<String>,
    pub export: Option<String>,
}

impl StructAttributes {
    /// The empty modifier set: nothing renamed, no policy, default export.
    pub fn new() -> (r: Self)
        ensures
            r.rename_all is None,
            r.rename is None,
            r.export is None,
    {
        StructAttributes { rename_all: None, rename: None, export: None }
    }
}

} // verus!
