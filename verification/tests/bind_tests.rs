use ts_bind::error::BindError;
use ts_bind::gen_ts_code::gen_ts_code;
use ts_bind::rename_all::RenameAll;
use ts_bind::sort_imports;
use ts_bind::struc::{parse_field_attributes, FieldAttributes, ParsedField};
use ts_bind::struct_attrs::StructAttrs;
use ts_bind::ts_bind::handle_ts_bind;
use ts_bind::ts_map::{PrimitiveKind, TsType};
use ts_bind::StructAttributes;

fn no_attrs() -> FieldAttributes {
    FieldAttributes::new()
}

#[test]
fn round_trip_post() {
    let fields: Vec<ParsedField> = vec![
        (
            "id".to_string(),
            TsType::Primitive(PrimitiveKind::Integer),
            no_attrs(),
        ),
        (
            "author".to_string(),
            TsType::Reference("User".to_string()),
            no_attrs(),
        ),
        (
            "tags".to_string(),
            TsType::Sequence(Box::new(TsType::Primitive(PrimitiveKind::Text))),
            no_attrs(),
        ),
    ];
    let attrs = StructAttrs::from("Post".to_string(), &vec![]).unwrap();
    let text = gen_ts_code(attrs.get_name().as_str(), &fields, &attrs);
    assert_eq!(
        text,
        "// This file was automatically generated by ts_bind, do not modify it manually\n\
         import type { User } from \"./User\";\n\
         \nexport interface Post {\n   id: number;\n   author: User;\n   tags: (string)[];\n}"
    );
}

#[test]
fn imports_sorted_and_deduplicated() {
    let fields: Vec<ParsedField> = vec![
        (
            "b".to_string(),
            TsType::Reference("B".to_string()),
            no_attrs(),
        ),
        (
            "a1".to_string(),
            TsType::Reference("A".to_string()),
            no_attrs(),
        ),
        (
            "a2".to_string(),
            TsType::Reference("A".to_string()),
            no_attrs(),
        ),
    ];
    let attrs = StructAttrs::from("Thing".to_string(), &vec![]).unwrap();
    let text = gen_ts_code(attrs.get_name().as_str(), &fields, &attrs);
    let expected_imports = "import type { A } from \"./A\";\nimport type { B } from \"./B\";\n";
    assert!(text.contains(expected_imports));
    assert_eq!(text.matches("{ A }").count(), 1);
    assert_eq!(text.matches("{ B }").count(), 1);
}

#[test]
fn imports_independent_of_field_order() {
    let make = |first: &str, second: &str| {
        let fields: Vec<ParsedField> = vec![
            (
                "x".to_string(),
                TsType::Reference(first.to_string()),
                no_attrs(),
            ),
            (
                "y".to_string(),
                TsType::Reference(second.to_string()),
                no_attrs(),
            ),
        ];
        let attrs = StructAttrs::from("Thing".to_string(), &vec![]).unwrap();
        gen_ts_code(attrs.get_name().as_str(), &fields, &attrs)
    };
    let t1 = make("C", "A");
    let t2 = make("A", "C");
    // the import block is identical; only the body order differs
    let imports = "import type { A } from \"./A\";\nimport type { C } from \"./C\";\n";
    assert!(t1.contains(imports));
    assert!(t2.contains(imports));
}

#[test]
fn sort_imports_orders_and_dedups() {
    let mut imports = vec!["B".to_string(), "A".to_string(), "A".to_string()];
    sort_imports(&mut imports);
    assert_eq!(imports, vec!["A".to_string(), "B".to_string()]);
}

#[test]
fn field_rename_outranks_rename_all() {
    let mods = vec![("rename_all".to_string(), Some("snake_case".to_string()))];
    let attrs = StructAttrs::from("Post".to_string(), &mods).unwrap();
    let fields: Vec<ParsedField> = vec![(
        "UserId".to_string(),
        TsType::Primitive(PrimitiveKind::Integer),
        FieldAttributes {
            rename: Some("uid".to_string()),
            skip: false,
        },
    )];
    let text = gen_ts_code(attrs.get_name().as_str(), &fields, &attrs);
    assert!(text.contains("   uid: number;\n"));
    assert!(!text.contains("user_id"));
}

#[test]
fn rename_all_policies_apply() {
    assert_eq!(RenameAll::SnakeCase.to_case("UserId"), "user_id");
    assert_eq!(RenameAll::CamelCase.to_case("user_id"), "userId");
    assert_eq!(RenameAll::PascalCase.to_case("user_id"), "UserId");
    assert_eq!(RenameAll::UpperCase.to_case("user_id"), "USER ID");
    assert_eq!(RenameAll::LowerCase.to_case("UserId"), "user id");
}

#[test]
fn skipped_field_leaves_no_trace() {
    let fields: Vec<ParsedField> = vec![
        (
            "id".to_string(),
            TsType::Primitive(PrimitiveKind::Integer),
            no_attrs(),
        ),
        (
            "secret".to_string(),
            TsType::Reference("Secret".to_string()),
            FieldAttributes {
                rename: None,
                skip: true,
            },
        ),
    ];
    let attrs = StructAttrs::from("Post".to_string(), &vec![]).unwrap();
    let text = gen_ts_code(attrs.get_name().as_str(), &fields, &attrs);
    assert!(!text.contains("secret"));
    assert!(!text.contains("Secret"));
    assert!(!text.contains("import"));
    assert!(text.contains("   id: number;\n"));
}

#[test]
fn unrecognized_struct_modifier_fails() {
    let mods = vec![("frobnicate".to_string(), Some("x".to_string()))];
    let r = StructAttrs::from("Post".to_string(), &mods);
    assert_eq!(
        r.unwrap_err(),
        BindError::UnrecognizedModifier("frobnicate".to_string())
    );

    let r = handle_ts_bind("Post".to_string(), &mods, vec![]);
    assert_eq!(
        r.unwrap_err(),
        BindError::UnrecognizedModifier("frobnicate".to_string())
    );
}

#[test]
fn unrecognized_field_modifier_fails() {
    let mods = vec![("frobnicate".to_string(), None)];
    let r = parse_field_attributes(&mods);
    assert_eq!(
        r.unwrap_err(),
        BindError::UnrecognizedModifier("frobnicate".to_string())
    );
}

#[test]
fn modifier_syntax_errors() {
    // rename demands a value
    let r = parse_field_attributes(&vec![("rename".to_string(), None)]);
    assert_eq!(r.unwrap_err(), BindError::ModifierSyntax("rename".to_string()));

    // skip refuses one
    let r = parse_field_attributes(&vec![("skip".to_string(), Some("yes".to_string()))]);
    assert_eq!(r.unwrap_err(), BindError::ModifierSyntax("skip".to_string()));

    // a casing policy outside the fixed set
    let r = StructAttrs::from(
        "Post".to_string(),
        &vec![("rename_all".to_string(), Some("kebab-case".to_string()))],
    );
    assert_eq!(
        r.unwrap_err(),
        BindError::ModifierSyntax("rename_all".to_string())
    );

    // export demands a value
    let r = StructAttrs::from("Post".to_string(), &vec![("export".to_string(), None)]);
    assert_eq!(r.unwrap_err(), BindError::ModifierSyntax("export".to_string()));
}

#[test]
fn field_modifiers_resolve() {
    let r = parse_field_attributes(&vec![
        ("rename".to_string(), Some("uid".to_string())),
        ("skip".to_string(), None),
    ])
    .unwrap();
    assert_eq!(r.rename, Some("uid".to_string()));
    assert!(r.skip);

    let r = parse_field_attributes(&vec![]).unwrap();
    assert_eq!(r.rename, None);
    assert!(!r.skip);
}

#[test]
fn struct_name_is_pascal_cased() {
    let attrs = StructAttrs::from("user_profile".to_string(), &vec![]).unwrap();
    assert_eq!(attrs.get_name().as_str(), "UserProfile");

    // an explicit rename is normalized the same way
    let attrs = StructAttrs::from(
        "user_profile".to_string(),
        &vec![("rename".to_string(), Some("member_card".to_string()))],
    )
    .unwrap();
    assert_eq!(attrs.get_name().as_str(), "MemberCard");
}

#[test]
fn export_path_defaults_to_bindings() {
    let attrs = StructAttrs::from("Post".to_string(), &vec![]).unwrap();
    assert_eq!(attrs.get_export_path(), "bindings/Post.ts");

    let attrs = StructAttrs::from(
        "Post".to_string(),
        &vec![("export".to_string(), Some("out/types".to_string()))],
    )
    .unwrap();
    assert_eq!(attrs.get_export_path(), "out/types/Post.ts");
}

#[test]
fn handle_ts_bind_full_run() {
    let struct_mods = vec![
        ("rename_all".to_string(), Some("camelCase".to_string())),
        ("export".to_string(), Some("out".to_string())),
    ];
    let raw_fields = vec![
        (
            "user_id".to_string(),
            TsType::Primitive(PrimitiveKind::Integer),
            vec![],
        ),
        (
            "best_friend".to_string(),
            TsType::Optional(Box::new(TsType::Reference("User".to_string()))),
            vec![],
        ),
    ];
    let (path, text) = handle_ts_bind("Post".to_string(), &struct_mods, raw_fields).unwrap();
    assert_eq!(path, "out/Post.ts");
    assert_eq!(
        text,
        "// This file was automatically generated by ts_bind, do not modify it manually\n\
         import type { User } from \"./User\";\n\
         \nexport interface Post {\n   userId: number;\n   bestFriend: User | null;\n}"
    );
}

#[test]
fn handle_ts_bind_field_error() {
    let raw_fields = vec![(
        "id".to_string(),
        TsType::Primitive(PrimitiveKind::Integer),
        vec![("rename".to_string(), None)],
    )];
    let r = handle_ts_bind("Post".to_string(), &vec![], raw_fields);
    assert_eq!(r.unwrap_err(), BindError::ModifierSyntax("rename".to_string()));
}

#[test]
fn struct_attributes_default_empty() {
    let attrs = StructAttributes::new();
    assert!(attrs.rename.is_none());
    assert!(attrs.rename_all.is_none());
    assert!(attrs.export.is_none());
}

#[test]
fn later_rename_overrides_earlier() {
    let attrs = StructAttrs::from(
        "post".to_string(),
        &vec![
            ("rename".to_string(), Some("first".to_string())),
            ("rename".to_string(), Some("second".to_string())),
        ],
    )
    .unwrap();
    assert_eq!(attrs.get_name().as_str(), "Second");
}
