use vstd::prelude::*;

use crate::error::{BindError, BindErrorView};
use crate::gen_ts_code::{gen_ts_code, gen_view};
use crate::rename_all::{policy_id, recased, RenameAll};
use crate::struc::{
    field_attrs_view, fields_view, mods_view, parse_field_attributes, resolve_field_mods,
    FieldView, Modifier, ParsedField,
};
use crate::struct_attrs::{export_path_view, resolve_struct_mods, StructAttrs, StructAttrsView};
use crate::ts_map::TsType;

verus! {

/// One field as the host representation hands it over, before its
/// modifiers are resolved: identifier, type descriptor, raw modifiers.
pub type RawField = (String, TsType, Vec<Modifier>);

/// The mathematical value of one raw field.
pub open spec fn raw_field_view(f: RawField) -> (Seq<char>, TsType, Seq<
    (Seq<char>, Option<Seq<char>>),
>) {
    (f.0@, f.1, mods_view(f.2@))
}

/// The mathematical value of a raw field list.
pub open spec fn raw_fields_view(s: Seq<RawField>) -> Seq<
    (Seq<char>, TsType, Seq<(Seq<char>, Option<Seq<char>>)>),
> {
    s.map_values(|f: RawField| raw_field_view(f))
}

/// What a raw field list resolves to, in declared order: each field's
/// modifiers resolved in turn, the first ill-formed field fatal.
pub open spec fn resolve_raw_fields(
    raw: Seq<(Seq<char>, TsType, Seq<(Seq<char>, Option<Seq<char>>)>)>,
) -> Result<Seq<FieldView>, BindErrorView>
    decreases raw.len(),
{
    if raw.len() == 0 {
        Ok(Seq::empty())
    } else {
        match resolve_field_mods((None, false), raw[0].2) {
            Ok(a) => match resolve_raw_fields(raw.drop_first()) {
                Ok(rest) => Ok(
                    seq![FieldView { name: raw[0].0, ty: raw[0].1, rename: a.0, skip: a.1 }] + rest,
                ),
                Err(e) => Err(e),
            },
            Err(e) => Err(e),
        }
    }
}

/// What one whole invocation produces: the struct modifiers resolved
/// first, then every field's modifiers in declared order, and on
/// success the export path together with the full declaration text.
pub open spec fn ts_bind_view(
    struct_name: Seq<char>,
    struct_mods: Seq<(Seq<char>, Option<Seq<char>>)>,
    raw: Seq<(Seq<char>, TsType, Seq<(Seq<char>, Option<Seq<char>>)>)>,
) -> Result<(Seq<char>, Seq<char>), BindErrorView> {
    match resolve_struct_mods(
        StructAttrsView {
            name: recased(policy_id(RenameAll::PascalCase), struct_name),
            rename_all: None,
            export: None,
        },
        struct_mods,
    ) {
        Ok(a) => match resolve_raw_fields(raw) {
            Ok(fields) => Ok((export_path_view(a), gen_view(a.name, fields, a.rename_all))),
            Err(e) => Err(e),
        },
        Err(e) => Err(e),
    }
}

/// Carry out one whole invocation short of the file write: resolve the
/// struct's and every field's modifiers and assemble the declaration.
/// Returns the export path and the text to write there, or the first
/// error; nothing is meant to be written when an error comes back.
#[verifier::loop_isolation(false)]
pub fn handle_ts_bind(
    struct_name: String,
    struct_mods: &Vec<Modifier>,
    raw_fields: Vec<RawField>,
) -> (r: Result<(String, String), BindError>)
    ensures
        ({
            let spec_r = ts_bind_view(
                struct_name@,
                mods_view(struct_mods@),
                raw_fields_view(raw_fields@),
            );
            match r {
                Ok(d) => spec_r == Ok::<_, BindErrorView>((d.0@, d.1@)),
                Err(e) => spec_r == Err::<(Seq<char>, Seq<char>), _>(e@),
            }
        }),
{
    let ghost rv = raw_fields_view(raw_fields@);
    let attrs = match StructAttrs::from(struct_name, struct_mods) {
        Ok(a) => a,
        Err(e) => {
            return Err(e);
        },
    };
    let mut remaining = raw_fields;
    let mut parsed: Vec<ParsedField> = Vec::new();
    proof {
        assert(rv.skip(0) =~= rv);
        assert(fields_view(parsed@) =~= Seq::<FieldView>::empty());
    }
    let ghost mut k: int = 0;
    while remaining.len() > 0
        invariant
            0 <= k,
            k + remaining@.len() == rv.len(),
            raw_fields_view(remaining@) =~= rv.skip(k),
            resolve_raw_fields(rv) == match resolve_raw_fields(rv.skip(k)) {
                Ok(rest) => Ok::<_, BindErrorView>(fields_view(parsed@) + rest),
                Err(e) => Err::<Seq<FieldView>, _>(e),
            },
        decreases remaining@.len(),
    {
        let ghost old_rem = remaining@;
        let f = remaining.remove(0);
        let ghost fview = raw_field_view(f);
        proof {
            assert(raw_fields_view(old_rem)[0] == fview);
            assert(rv.skip(k)[0] == fview);
            assert(raw_fields_view(remaining@) =~= rv.skip(k + 1)) by {
                assert forall|j: int|
                    0 <= j < remaining@.len() implies raw_fields_view(remaining@)[j] == rv.skip(
                    k + 1,
                )[j] by {
                    assert(remaining@[j] == old_rem[j + 1]);
                    assert(raw_fields_view(old_rem)[j + 1] == raw_field_view(old_rem[j + 1]));
                    assert(rv.skip(k)[j + 1] == rv[k + 1 + j]);
                    assert(rv.skip(k + 1)[j] == rv[k + 1 + j]);
                }
            }
            assert(rv.skip(k).drop_first() =~= rv.skip(k + 1));
        }
        let fa = match parse_field_attributes(&f.2) {
            Ok(a) => a,
            Err(e) => {
                proof {
                    assert(resolve_raw_fields(rv.skip(k)) == Err::<Seq<FieldView>, _>(e@));
                    assert(resolve_raw_fields(rv) == Err::<Seq<FieldView>, _>(e@));
                }
                return Err(e);
            },
        };
        let ghost new_view = FieldView {
            name: f.0@,
            ty: f.1,
            rename: field_attrs_view(fa).0,
            skip: field_attrs_view(fa).1,
        };
        let ghost parsed_before = fields_view(parsed@);
        parsed.push((f.0, f.1, fa));
        proof {
            assert(fields_view(parsed@) =~= parsed_before.push(new_view));
            assert(resolve_field_mods((None, false), rv.skip(k)[0].2) == Ok::<
                _,
                BindErrorView,
            >(field_attrs_view(fa)));
            match resolve_raw_fields(rv.skip(k + 1)) {
                Ok(rest) => {
                    assert(resolve_raw_fields(rv.skip(k)) == Ok::<_, BindErrorView>(
                        seq![new_view] + rest,
                    ));
                    assert(parsed_before + (seq![new_view] + rest) =~= fields_view(parsed@) + rest);
                },
                Err(e) => {
                    assert(resolve_raw_fields(rv.skip(k)) == Err::<Seq<FieldView>, _>(e));
                },
            }
        }
        proof {
            k = k + 1;
        }
    }
    proof {
        assert(rv.skip(k) =~= Seq::<
            (Seq<char>, TsType, Seq<(Seq<char>, Option<Seq<char>>)>),
        >::empty());
        assert(fields_view(parsed@) + Seq::<FieldView>::empty() =~= fields_view(parsed@));
    }
    let name = attrs.get_name();
    let text = gen_ts_code(name.as_str(), &parsed, &attrs);
    let path = attrs.get_export_path();
    Ok((path, text))
}

} // verus!
