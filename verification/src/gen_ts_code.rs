use vstd::prelude::*;

use crate::order::sort_dedup;
use crate::rename_all::{policy_id, recased, RenameAll};
use crate::struc::{field_view, fields_view, FieldView, ParsedField};
use crate::struct_attrs::StructAttrs;
use crate::ts_map::{ts_imports, ts_rs_map, ts_text};

verus! {

/// The name a field is emitted under: an explicit per-field rename
/// outranks the struct-level casing policy, which outranks the raw
/// identifier.
pub open spec fn field_label(f: FieldView, policy: Option<RenameAll>) -> Seq<char> {
    match f.rename {
        Some(r) => r,
        None => match policy {
            Some(p) => recased(policy_id(p), f.name),
            None => f.name,
        },
    }
}

/// The body line one field contributes; a skipped field contributes
/// nothing.
pub open spec fn field_line(f: FieldView, policy: Option<RenameAll>) -> Seq<char> {
    if f.skip {
        Seq::empty()
    } else {
        "   "@ + field_label(f, policy) + ": "@ + ts_text(f.ty) + ";\n"@
    }
}

/// The whole body block: the retained fields' lines in declared order.
pub open spec fn body_lines(fields: Seq<FieldView>, policy: Option<RenameAll>) -> Seq<char>
    decreases fields.len(),
{
    if fields.len() == 0 {
        Seq::empty()
    } else {
        body_lines(fields.drop_last(), policy) + field_line(fields.last(), policy)
    }
}

/// The external names the retained fields reference, in declared
/// traversal order, duplicates kept; skipped fields contribute nothing.
pub open spec fn fields_imports(fields: Seq<FieldView>) -> Seq<Seq<char>>
    decreases fields.len(),
{
    if fields.len() == 0 {
        Seq::empty()
    } else {
        fields_imports(fields.drop_last()) + (if fields.last().skip {
            Seq::empty()
        } else {
            ts_imports(fields.last().ty)
        })
    }
}

/// The import line one referenced name gets.
pub open spec fn import_line(name: Seq<char>) -> Seq<char> {
    "import type { "@ + name + " } from \"./"@ + name + "\";\n"@
}

/// The import block for a list of names, in the order given.
pub open spec fn import_lines(names: Seq<Seq<char>>) -> Seq<char>
    decreases names.len(),
{
    if names.len() == 0 {
        Seq::empty()
    } else {
        import_lines(names.drop_last()) + import_line(names.last())
    }
}

/// The fixed first line of every generated file.
pub open spec fn header_text() -> Seq<char> {
    "// This file was automatically generated by ts_bind, do not modify it manually\n"@
}

/// The complete generated declaration: header, then one import line per
/// referenced name in sorted order without duplicates, then the
/// interface body.
pub open spec fn gen_view(
    name: Seq<char>,
    fields: Seq<FieldView>,
    policy: Option<RenameAll>,
) -> Seq<char> {
    header_text() + import_lines(sort_dedup(fields_imports(fields))) + "\nexport interface "@
        + name + " {\n"@ + body_lines(fields, policy) + "}"@
}

/// Law: an explicit per-field rename always outranks the struct-level
/// casing policy, whatever the policy is.
pub proof fn lemma_rename_outranks_policy(f: FieldView, policy: Option<RenameAll>, r: Seq<char>)
    requires
        f.rename == Some(r),
    ensures
        field_label(f, policy) == r,
{
}

/// Law: a skipped field never appears in the body text and never
/// contributes to the import set — inserting it at any position leaves
/// the whole generated declaration unchanged.
pub proof fn lemma_skip_field_invisible(
    name: Seq<char>,
    fields: Seq<FieldView>,
    policy: Option<RenameAll>,
    f: FieldView,
    i: int,
)
    requires
        f.skip,
        0 <= i <= fields.len(),
    ensures
        body_lines(fields.insert(i, f), policy) == body_lines(fields, policy),
        fields_imports(fields.insert(i, f)) == fields_imports(fields),
        gen_view(name, fields.insert(i, f), policy) == gen_view(name, fields, policy),
    decreases fields.len(),
{
    let s2 = fields.insert(i, f);
    if i == fields.len() {
        assert(s2.drop_last() =~= fields);
        assert(s2.last() == f);
        assert(field_line(f, policy) == Seq::<char>::empty());
        assert(body_lines(s2, policy) =~= body_lines(fields, policy));
        assert(fields_imports(s2) =~= fields_imports(fields));
    } else {
        assert(fields.len() > 0);
        assert(s2.last() == fields.last());
        assert(s2.drop_last() =~= fields.drop_last().insert(i, f));
        lemma_skip_field_invisible(name, fields.drop_last(), policy, f, i);
    }
}

/// Assemble the declaration text for one struct: every retained field
/// in declared order under its resolved name, and the referenced
/// external names as a sorted, duplicate-free import block.
pub fn gen_ts_code(struct_name: &str, fields: &Vec<ParsedField>, struct_attrs: &StructAttrs) -> (r:
    String)
    ensures
        r@ == gen_view(struct_name@, fields_view(fields@), struct_attrs@.rename_all),
{
    let ghost policy = struct_attrs@.rename_all;
    let ghost fv = fields_view(fields@);
    let mut body = String::from_str("\nexport interface ");
    body.append(struct_name);
    body.append(" {\n");
    let mut imports: Vec<String> = Vec::new();
    let mut i: usize = 0;
    proof {
        assert(fv.subrange(0, 0) =~= Seq::<FieldView>::empty());
        assert(body@ =~= "\nexport interface "@ + struct_name@ + " {\n"@ + body_lines(
            fv.subrange(0, 0),
            policy,
        ));
        assert(imports.deep_view() =~= fields_imports(fv.subrange(0, 0)));
    }
    while i < fields.len()
        invariant
            i <= fields@.len(),
            fv == fields_view(fields@),
            policy == struct_attrs@.rename_all,
            body@ == "\nexport interface "@ + struct_name@ + " {\n"@ + body_lines(
                fv.subrange(0, i as int),
                policy,
            ),
            imports.deep_view() == fields_imports(fv.subrange(0, i as int)),
        decreases fields@.len() - i,
    {
        let f = &fields[i];
        let ghost prefix = fv.subrange(0, i as int);
        proof {
            assert(fv.subrange(0, i as int + 1).drop_last() =~= prefix);
            assert(fv.subrange(0, i as int + 1).last() == field_view(fields@[i as int]));
        }
        if !f.2.skip {
            let field_name: String = match &f.2.rename {
                Some(r) => r.clone(),
                None => match struct_attrs.get_rename_all() {
                    Some(p) => p.to_case(f.0.as_str()),
                    None => f.0.clone(),
                },
            };
            let mapped = ts_rs_map(&f.1, &mut imports);
            body.append("   ");
            body.append(field_name.as_str());
            body.append(": ");
            body.append(mapped.as_str());
            body.append(";\n");
            proof {
                assert(field_name@ == field_label(field_view(fields@[i as int]), policy));
                assert(body@ =~= "\nexport interface "@ + struct_name@ + " {\n"@ + body_lines(
                    fv.subrange(0, i as int + 1),
                    policy,
                ));
                assert(imports.deep_view() =~= fields_imports(fv.subrange(0, i as int + 1)));
            }
        } else {
            proof {
                assert(body_lines(fv.subrange(0, i as int + 1), policy) =~= body_lines(
                    prefix,
                    policy,
                ));
                assert(fields_imports(fv.subrange(0, i as int + 1)) =~= fields_imports(prefix));
            }
        }
        i = i + 1;
    }
    proof {
        assert(fv.subrange(0, fv.len() as int) =~= fv);
    }
    body.append("}");
    sorter(&mut imports);
    let ghost sorted_names = imports.deep_view();
    let mut text = String::from_str(
        "// This file was automatically generated by ts_bind, do not modify it manually\n",
    );
    let mut k: usize = 0;
    proof {
        assert(sorted_names.subrange(0, 0) =~= Seq::<Seq<char>>::empty());
        assert(text@ =~= header_text() + import_lines(sorted_names.subrange(0, 0)));
    }
    while k < imports.len()
        invariant
            k <= imports@.len(),
            sorted_names == imports.deep_view(),
            text@ == header_text() + import_lines(sorted_names.subrange(0, k as int)),
        decreases imports@.len() - k,
    {
        proof {
            assert(sorted_names.subrange(0, k as int + 1).drop_last() =~= sorted_names.subrange(
                0,
                k as int,
            ));
        }
        text.append("import type { ");
        text.append(imports[k].as_str());
        text.append(" } from \"./");
        text.append(imports[k].as_str());
        text.append("\";\n");
        proof {
            assert(text@ =~= header_text() + import_lines(sorted_names.subrange(0, k as int + 1)));
        }
        k = k + 1;
    }
    proof {
        assert(sorted_names.subrange(0, sorted_names.len() as int) =~= sorted_names);
    }
    text.append(body.as_str());
    proof {
        assert(text@ =~= gen_view(struct_name@, fv, struct_attrs@.rename_all));
    }
    text
}

/// Sort the collected imports and drop duplicates before emission.
fn sorter(imports: &mut Vec<String>)
    ensures
        final(imports).deep_view() == sort_dedup(old(imports).deep_view()),
{
    crate::sort_imports(imports)
}

} // verus!
