use ts_bind::ts_map::{ts_rs_map, PrimitiveKind, TsType};

#[test]
fn test_handle_option() {
    let ty = TsType::Optional(Box::new(TsType::Primitive(PrimitiveKind::Text)));
    let imports = &mut Vec::new();
    let result = ts_rs_map(&ty, imports);
    assert_eq!(result, "string | null");

    let ty = TsType::Optional(Box::new(TsType::Optional(Box::new(TsType::Primitive(
        PrimitiveKind::Text,
    )))));
    let result = ts_rs_map(&ty, imports);
    assert_eq!(result, "string | null | null");
}

#[test]
fn test_vector_map() {
    let ty = TsType::Sequence(Box::new(TsType::Primitive(PrimitiveKind::Text)));
    let imports = &mut Vec::new();
    let result = ts_rs_map(&ty, imports);
    assert_eq!(result, "(string)[]");
}

#[test]
fn test_map_map() {
    let ty = TsType::Dictionary(
        Box::new(TsType::Primitive(PrimitiveKind::Text)),
        Box::new(TsType::Primitive(PrimitiveKind::Text)),
    );
    let imports = &mut Vec::new();
    let result = ts_rs_map(&ty, imports);
    assert_eq!(result, "{ [key: string]: string }");
}

#[test]
fn test_str_ref() {
    {
        let ty = TsType::Borrowed(Box::new(TsType::Primitive(PrimitiveKind::Text)));
        let imports = &mut Vec::new();
        let result = ts_rs_map(&ty, imports);
        assert_eq!(result, "string");
    }

    {
        // a borrow of an owned text value unwraps the same way
        let ty = TsType::Borrowed(Box::new(TsType::Borrowed(Box::new(TsType::Primitive(
            PrimitiveKind::Text,
        )))));
        let imports = &mut Vec::new();
        let result = ts_rs_map(&ty, imports);
        assert_eq!(result, "string");
    }
}

#[test]
fn test_imports() {
    {
        let ty = TsType::Sequence(Box::new(TsType::Reference("Posts".to_string())));
        let imports = &mut Vec::new();
        ts_rs_map(&ty, imports);
        assert_eq!(imports, &mut vec!["Posts".to_string()]);
    }

    {
        let ty = TsType::Optional(Box::new(TsType::Primitive(PrimitiveKind::Text)));
        let imports = &mut Vec::new();
        ts_rs_map(&ty, imports);

        assert_eq!(imports, &mut Vec::<String>::new());
    }

    {
        let ty = TsType::Reference("Users".to_string());
        let imports = &mut Vec::new();
        ts_rs_map(&ty, imports);
        assert_eq!(imports, &mut vec!["Users".to_string()]);
    }
}

#[test]
fn test_sequence_of_reference() {
    let ty = TsType::Sequence(Box::new(TsType::Reference("Posts".to_string())));
    let imports = &mut Vec::new();
    let result = ts_rs_map(&ty, imports);
    assert_eq!(result, "(Posts)[]");
    assert_eq!(imports, &mut vec!["Posts".to_string()]);
}

#[test]
fn test_primitives_no_imports() {
    for ty in [
        TsType::Primitive(PrimitiveKind::Integer),
        TsType::Primitive(PrimitiveKind::Float),
        TsType::Primitive(PrimitiveKind::Boolean),
        TsType::Primitive(PrimitiveKind::Text),
    ] {
        let imports = &mut Vec::new();
        ts_rs_map(&ty, imports);
        assert!(imports.is_empty());
    }
    let imports = &mut Vec::new();
    assert_eq!(
        ts_rs_map(&TsType::Primitive(PrimitiveKind::Integer), imports),
        "number"
    );
    assert_eq!(
        ts_rs_map(&TsType::Primitive(PrimitiveKind::Float), imports),
        "number"
    );
    assert_eq!(
        ts_rs_map(&TsType::Primitive(PrimitiveKind::Boolean), imports),
        "boolean"
    );
    assert_eq!(
        ts_rs_map(&TsType::Primitive(PrimitiveKind::Text), imports),
        "string"
    );
}

#[test]
fn test_map_value_side_import() {
    let ty = TsType::Dictionary(
        Box::new(TsType::Primitive(PrimitiveKind::Text)),
        Box::new(TsType::Reference("Role".to_string())),
    );
    let imports = &mut Vec::new();
    let result = ts_rs_map(&ty, imports);
    assert_eq!(result, "{ [key: string]: Role }");
    assert_eq!(imports, &mut vec!["Role".to_string()]);
}
