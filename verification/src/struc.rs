use vstd::prelude::*;

use crate::error::{BindError, BindErrorView};
use crate::str_eq;
use crate::ts_map::TsType;

verus! {

/// One raw modifier as the host representation hands it over: a key,
/// and the literal string value if the modifier carried one.
pub type Modifier = (String, Option<String>);

/// A field as the host representation hands it over: identifier, type
/// descriptor, and resolved field-level modifiers.
pub type ParsedField = (String, TsType, FieldAttributes);

/// The mathematical value of one modifier.
pub open spec fn mod_view(m: Modifier) -> (Seq<char>, Option<Seq<char>>) {
    (
        m.0@,
        match m.1 {
            Some(v) => Some(v@),
            None => None,
        },
    )
}

/// The mathematical value of a modifier list.
pub open spec fn mods_view(s: Seq<Modifier>) -> Seq<(Seq<char>, Option<Seq<char>>)> {
    s.map_values(|m: Modifier| mod_view(m))
}

/// Field-level modifiers in resolved form. `skip` means the field is
/// omitted from the body and from import scanning altogether.
#[derive(Debug)]
pub struct FieldAttributes {
    pub rename: Option<String>,
    pub skip: bool,
}

/// The mathematical value of one field after resolution: identifier,
/// type descriptor, and resolved modifiers.
pub ghost struct FieldView {
    pub name: Seq<char>,
    pub ty: TsType,
    pub rename: Option<Seq<char>>,
    pub skip: bool,
}

/// The mathematical value of one parsed field.
pub open spec fn field_view(f: ParsedField) -> FieldView {
    FieldView {
        name: f.0@,
        ty: f.1,
        rename: match f.2.rename {
            Some(r) => Some(r@),
            None => None,
        },
        skip: f.2.skip,
    }
}

/// The mathematical value of a parsed field list.
pub open spec fn fields_view(s: Seq<ParsedField>) -> Seq<FieldView> {
    s.map_values(|f: ParsedField| field_view(f))
}

/// The mathematical value of resolved field attributes.
pub open spec fn field_attrs_view(a: FieldAttributes) -> (Option<Seq<char>>, bool) {
    (
        match a.rename {
            Some(r) => Some(r@),
            None => None,
        },
        a.skip,
    )
}

impl FieldAttributes {
    /// The default resolution: no rename, not skipped.
    pub fn new() -> (r: Self)
        ensures
            r.rename is None,
            !r.skip,
    {
        FieldAttributes { rename: None, skip: false }
    }
}

/// What a field-level modifier list resolves to, walked left to right
/// from the accumulator `acc`: a later `rename` overrides an earlier
/// one, and the first ill-formed modifier is fatal. `rename` demands a
/// value, `skip` refuses one, and any other key is unrecognized.
pub open spec fn resolve_field_mods(
    acc: (Option<Seq<char>>, bool),
    mods: Seq<(Seq<char>, Option<Seq<char>>)>,
) -> Result<(Option<Seq<char>>, bool), BindErrorView>
    decreases mods.len(),
{
    if mods.len() == 0 {
        Ok(acc)
    } else {
        let m = mods[0];
        if m.0 == "rename"@ {
            match m.1 {
                Some(v) => resolve_field_mods((Some(v), acc.1), mods.drop_first()),
                None => Err(BindErrorView::ModifierSyntax { key: m.0 }),
            }
        } else if m.0 == "skip"@ {
            match m.1 {
                Some(_) => Err(BindErrorView::ModifierSyntax { key: m.0 }),
                None => resolve_field_mods((acc.0, true), mods.drop_first()),
            }
        } else {
            Err(BindErrorView::UnrecognizedModifier { key: m.0 })
        }
    }
}

/// Resolve a field's modifier list, refusing the first modifier that is
/// ill-formed or unrecognized.
pub fn parse_field_attributes(attrs: &Vec<Modifier>) -> (r: Result<FieldAttributes, BindError>)
    ensures
        ({
            let spec_r = resolve_field_mods((None, false), mods_view(attrs@));
            match r {
                Ok(a) => spec_r == Ok::<_, BindErrorView>(field_attrs_view(a)),
                Err(e) => spec_r == Err::<(Option<Seq<char>>, bool), _>(e@),
            }
        }),
{
    let mut rename: Option<String> = None;
    let mut skip: bool = false;
    let mut i: usize = 0;
    proof {
        assert(mods_view(attrs@).skip(0) =~= mods_view(attrs@));
    }
    while i < attrs.len()
        invariant
            i <= attrs.len(),
            resolve_field_mods((None, false), mods_view(attrs@)) == resolve_field_mods(
                (
                    match rename {
                        Some(ref v) => Some(v@),
                        None => None,
                    },
                    skip,
                ),
                mods_view(attrs@).skip(i as int),
            ),
        decreases attrs.len() - i,
    {
        let m = &attrs[i];
        proof {
            assert(mods_view(attrs@).skip(i as int)[0] == mod_view(attrs@[i as int]));
            assert(mods_view(attrs@).skip(i as int).drop_first() =~= mods_view(attrs@).skip(
                i as int + 1,
            ));
        }
        if str_eq(m.0.as_str(), "rename") {
            match &m.1 {
                Some(v) => {
                    rename = Some(v.clone());
                },
                None => {
                    return Err(BindError::ModifierSyntax(m.0.clone()));
                },
            }
        } else if str_eq(m.0.as_str(), "skip") {
            match &m.1 {
                Some(_) => {
                    return Err(BindError::ModifierSyntax(m.0.clone()));
                },
                None => {
                    skip = true;
                },
            }
        } else {
            return Err(BindError::UnrecognizedModifier(m.0.clone()));
        }
        i = i + 1;
    }
    Ok(FieldAttributes { rename, skip })
}

} // verus!
