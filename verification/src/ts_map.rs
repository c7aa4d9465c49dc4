use vstd::prelude::*;

verus! {

/// The primitive shapes the mapper recognizes. All integer and float
/// widths of the source language collapse to one numeric output token,
/// so the kinds here already are width-free.
#[derive(Debug, Clone, Copy, PartialEq, Eq, Structural)]
pub enum PrimitiveKind {
    Integer,
    Float,
    Boolean,
    Text,
}

/// A structural description of a field's type: the closed union the
/// mapper is total over. Anything the host representation cannot
/// classify as one of the wrapper shapes arrives here as `Reference`
/// with its literal rendered form.
#[derive(Debug, PartialEq, Eq)]
pub enum TsType {
    Primitive(PrimitiveKind),
    Optional(Box<TsType>),
    Sequence(Box<TsType>),
    Dictionary(Box<TsType>, Box<TsType>),
    Borrowed(Box<TsType>),
    Reference(String),
}

/// The output token of one primitive kind.
pub open spec fn prim_token(k: PrimitiveKind) -> Seq<char> {
    match k {
        PrimitiveKind::Integer => "number"@,
        PrimitiveKind::Float => "number"@,
        PrimitiveKind::Boolean => "boolean"@,
        PrimitiveKind::Text => "string"@,
    }
}

/// The text the mapper emits for a descriptor. Nested `Optional`s are
/// deliberately not collapsed: each wrapper appends its own `| null`.
pub open spec fn ts_text(t: TsType) -> Seq<char>
    decreases t,
{
    match t {
        TsType::Primitive(k) => prim_token(k),
        TsType::Optional(inner) => ts_text(*inner) + " | null"@,
        TsType::Sequence(inner) => "("@ + ts_text(*inner) + ")[]"@,
        TsType::Dictionary(key, value) => "{ [key: "@ + ts_text(*key) + "]: "@ + ts_text(*value)
            + " }"@,
        TsType::Borrowed(inner) => ts_text(*inner),
        TsType::Reference(name) => name@,
    }
}

/// The referenced external names a descriptor mentions, in traversal
/// order (key side before value side), duplicates kept. Only
/// `Reference` contributes; both sides of a `Dictionary` are kept.
pub open spec fn ts_imports(t: TsType) -> Seq<Seq<char>>
    decreases t,
{
    match t {
        TsType::Primitive(k) => Seq::empty(),
        TsType::Optional(inner) => ts_imports(*inner),
        TsType::Sequence(inner) => ts_imports(*inner),
        TsType::Dictionary(key, value) => ts_imports(*key) + ts_imports(*value),
        TsType::Borrowed(inner) => ts_imports(*inner),
        TsType::Reference(name) => seq![name@],
    }
}

/// Law: the mapper is total over the closed union — `ts_rs_map` has no
/// precondition — and no primitive kind ever contributes to the import
/// set.
pub proof fn lemma_primitive_no_imports(k: PrimitiveKind)
    ensures
        ts_imports(TsType::Primitive(k)) == Seq::<Seq<char>>::empty(),
{
}

/// Law: a dictionary's imports are the key side's followed by the value
/// side's; neither side is dropped.
pub proof fn lemma_dictionary_imports_both_sides(t: TsType)
    requires
        t is Dictionary,
    ensures
        t matches TsType::Dictionary(key, value) ==> ts_imports(t) == ts_imports(*key)
            + ts_imports(*value),
{
}

/// Map one type descriptor to its output text, appending every
/// referenced external name to `imports`.
pub fn ts_rs_map(token: &TsType, imports: &mut Vec<String>) -> (r: String)
    ensures
        r@ == ts_text(*token),
        final(imports).deep_view() == old(imports).deep_view() + ts_imports(*token),
    decreases *token,
{
    let r = match token {
        TsType::Primitive(k) => match k {
            PrimitiveKind::Integer => "number".to_owned(),
            PrimitiveKind::Float => "number".to_owned(),
            PrimitiveKind::Boolean => "boolean".to_owned(),
            PrimitiveKind::Text => "string".to_owned(),
        },
        TsType::Optional(inner) => {
            let mut r = ts_rs_map(&**inner, imports);
            r.append(" | null");
            r
        },
        TsType::Sequence(inner) => {
            let mut r = String::from_str("(");
            let inner_text = ts_rs_map(&**inner, imports);
            r.append(inner_text.as_str());
            r.append(")[]");
            r
        },
        TsType::Dictionary(key, value) => {
            let mut r = String::from_str("{ [key: ");
            let key_text = ts_rs_map(&**key, imports);
            r.append(key_text.as_str());
            r.append("]: ");
            let value_text = ts_rs_map(&**value, imports);
            r.append(value_text.as_str());
            r.append(" }");
            r
        },
        TsType::Borrowed(inner) => ts_rs_map(&**inner, imports),
        TsType::Reference(name) => {
            imports.push(name.clone());
            name.clone()
        },
    };
    proof {
        assert(imports.deep_view() =~= old(imports).deep_view() + ts_imports(*token));
    }
    r
}

} // verus!
