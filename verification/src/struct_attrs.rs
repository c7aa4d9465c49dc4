use vstd::prelude::*;

use crate::error::{BindError, BindErrorView};
use crate::rename_all::{policy_id, recased, RenameAll};
use crate::str_eq;
use crate::struc::{mod_view, mods_view, Modifier};

verus! {

/// A struct's resolved output name. Whatever it is built from — the
/// declared identifier or an explicit rename value — is normalized to
/// pascal case; that default applies always, not only when a rename is
/// present.
#[derive(Debug)]
pub struct StructName(String);

impl View for StructName {
    type V = Seq<char>;

    closed spec fn view(&self) -> Seq<char> {
        self.0@
    }
}

impl StructName {
    /// Build the output name: the given identifier, pascal-cased.
    pub fn new(name: String) -> (r: Self)
        ensures
            r@ == recased(policy_id(RenameAll::PascalCase), name@),
    {
        StructName(RenameAll::PascalCase.to_case(name.as_str()))
    }

    /// The resolved name's text.
    pub fn as_str(&self) -> (r: &str)
        ensures
            r@ == self@,
    {
        self.0.as_str()
    }
}

/// Struct-level modifiers in resolved form: the output name, the
/// casing policy for field names, and the export directory.
#[derive(Debug)]
pub struct StructAttrs {
    name: StructName,
    rename_all: Option<RenameAll>,
    export: Option<String>,
}

/// The mathematical value of resolved struct attributes.
pub ghost struct StructAttrsView {
    pub name: Seq<char>,
    pub rename_all: Option<RenameAll>,
    pub export: Option<Seq<char>>,
}

impl View for StructAttrs {
    type V = StructAttrsView;

    closed spec fn view(&self) -> StructAttrsView {
        StructAttrsView {
            name: self.name@,
            rename_all: self.rename_all,
            export: match self.export {
                Some(ref e) => Some(e@),
                None => None,
            },
        }
    }
}

/// The casing policy a `rename_all` value token names, if any.
pub open spec fn policy_of_token(v: Seq<char>) -> Option<RenameAll> {
    if v == "camelCase"@ {
        Some(RenameAll::CamelCase)
    } else if v == "snake_case"@ {
        Some(RenameAll::SnakeCase)
    } else if v == "UPPERCASE"@ {
        Some(RenameAll::UpperCase)
    } else if v == "lowercase"@ {
        Some(RenameAll::LowerCase)
    } else if v == "PascalCase"@ {
        Some(RenameAll::PascalCase)
    } else {
        None
    }
}

/// What a struct-level modifier list resolves to, walked left to right
/// from the accumulator `acc`. A `rename` value replaces the name
/// (pascal-cased like the default); a `rename_all` value must be one of
/// the five policy tokens; `export` replaces the export directory. A
/// recognized key without a value is a syntax error, any other key is
/// unrecognized, and the first error is fatal.
pub open spec fn resolve_struct_mods(
    acc: StructAttrsView,
    mods: Seq<(Seq<char>, Option<Seq<char>>)>,
) -> Result<StructAttrsView, BindErrorView>
    decreases mods.len(),
{
    if mods.len() == 0 {
        Ok(acc)
    } else {
        let m = mods[0];
        if m.0 == "rename"@ {
            match m.1 {
                Some(v) => resolve_struct_mods(
                    StructAttrsView {
                        name: recased(policy_id(RenameAll::PascalCase), v),
                        rename_all: acc.rename_all,
                        export: acc.export,
                    },
                    mods.drop_first(),
                ),
                None => Err(BindErrorView::ModifierSyntax { key: m.0 }),
            }
        } else if m.0 == "rename_all"@ {
            match m.1 {
                Some(v) => match policy_of_token(v) {
                    Some(p) => resolve_struct_mods(
                        StructAttrsView {
                            name: acc.name,
                            rename_all: Some(p),
                            export: acc.export,
                        },
                        mods.drop_first(),
                    ),
                    None => Err(BindErrorView::ModifierSyntax { key: m.0 }),
                },
                None => Err(BindErrorView::ModifierSyntax { key: m.0 }),
            }
        } else if m.0 == "export"@ {
            match m.1 {
                Some(v) => resolve_struct_mods(
                    StructAttrsView { name: acc.name, rename_all: acc.rename_all, export: Some(v) },
                    mods.drop_first(),
                ),
                None => Err(BindErrorView::ModifierSyntax { key: m.0 }),
            }
        } else {
            Err(BindErrorView::UnrecognizedModifier { key: m.0 })
        }
    }
}

/// The file the declaration is written to: the export directory (or
/// `bindings` when none was given) joined with `<name>.ts`.
pub open spec fn export_path_view(a: StructAttrsView) -> Seq<char> {
    (match a.export {
        Some(d) => d + "/"@,
        None => "bindings/"@,
    }) + a.name + ".ts"@
}

impl StructAttrs {
    /// Resolve a struct's modifier list against its declared identifier,
    /// refusing the first modifier that is ill-formed or unrecognized.
    pub fn from(struct_name: String, attrs: &Vec<Modifier>) -> (r: Result<StructAttrs, BindError>)
        ensures
            ({
                let spec_r = resolve_struct_mods(
                    StructAttrsView {
                        name: recased(policy_id(RenameAll::PascalCase), struct_name@),
                        rename_all: None,
                        export: None,
                    },
                    mods_view(attrs@),
                );
                match r {
                    Ok(a) => spec_r == Ok::<_, BindErrorView>(a@),
                    Err(e) => spec_r == Err::<StructAttrsView, _>(e@),
                }
            }),
    {
        let mut cur = StructAttrs {
            name: StructName::new(struct_name),
            rename_all: None,
            export: None,
        };
        let mut i: usize = 0;
        proof {
            assert(mods_view(attrs@).skip(0) =~= mods_view(attrs@));
        }
        while i < attrs.len()
            invariant
                i <= attrs.len(),
                resolve_struct_mods(
                    StructAttrsView {
                        name: recased(policy_id(RenameAll::PascalCase), struct_name@),
                        rename_all: None,
                        export: None,
                    },
                    mods_view(attrs@),
                ) == resolve_struct_mods(cur@, mods_view(attrs@).skip(i as int)),
            decreases attrs.len() - i,
        {
            let m = &attrs[i];
            proof {
                assert(mods_view(attrs@).skip(i as int)[0] == mod_view(attrs@[i as int]));
                assert(mods_view(attrs@).skip(i as int).drop_first() =~= mods_view(attrs@).skip(
                    i as int + 1,
                ));
            }
            if str_eq(m.0.as_str(), "rename") {
                match &m.1 {
                    Some(v) => {
                        cur.name = StructName::new(v.clone());
                    },
                    None => {
                        return Err(BindError::ModifierSyntax(m.0.clone()));
                    },
                }
            } else if str_eq(m.0.as_str(), "rename_all") {
                match &m.1 {
                    Some(v) => {
                        let token = v.as_str();
                        if str_eq(token, "camelCase") {
                            cur.rename_all = Some(RenameAll::CamelCase);
                        } else if str_eq(token, "snake_case") {
                            cur.rename_all = Some(RenameAll::SnakeCase);
                        } else if str_eq(token, "UPPERCASE") {
                            cur.rename_all = Some(RenameAll::UpperCase);
                        } else if str_eq(token, "lowercase") {
                            cur.rename_all = Some(RenameAll::LowerCase);
                        } else if str_eq(token, "PascalCase") {
                            cur.rename_all = Some(RenameAll::PascalCase);
                        } else {
                            return Err(BindError::ModifierSyntax(m.0.clone()));
                        }
                    },
                    None => {
                        return Err(BindError::ModifierSyntax(m.0.clone()));
                    },
                }
            } else if str_eq(m.0.as_str(), "export") {
                match &m.1 {
                    Some(v) => {
                        cur.export = Some(v.clone());
                    },
                    None => {
                        return Err(BindError::ModifierSyntax(m.0.clone()));
                    },
                }
            } else {
                return Err(BindError::UnrecognizedModifier(m.0.clone()));
            }
            i = i + 1;
        }
        Ok(cur)
    }

    /// The resolved output name.
    pub fn get_name(&self) -> (r: &StructName)
        ensures
            r@ == self@.name,
    {
        &self.name
    }

    /// The file this declaration is written to.
    pub fn get_export_path(&self) -> (r: String)
        ensures
            r@ == export_path_view(self@),
    {
        let mut p = match &self.export {
            Some(d) => {
                let mut s = d.clone();
                s.append("/");
                s
            },
            None => String::from_str("bindings/"),
        };
        p.append(self.name.as_str());
        p.append(".ts");
        p
    }

    /// The casing policy for field names, if one was asked for.
    pub fn get_rename_all(&self) -> (r: Option<&RenameAll>)
        ensures
            match r {
                Some(p) => self@.rename_all == Some(*p),
                None => self@.rename_all is None,
            },
    {
        self.rename_all.as_ref()
    }
}

} // verus!
