use buffi::cache::{CacheState, TypeCache};
use buffi::document::{
    InterfaceDocument, Item, ItemKind, PathComponent, PathSummary, StructShape, SummaryKind,
    VariantPayload,
};
use buffi::error::BuildError;
use buffi::format::{
    ContainerFormat, Format, Lowered, NamedFormat, NamedVariant, VariantShape,
};
use buffi::lower::{lower, lower_type, DEPTH_LIMIT};
use buffi::registry::Registry;
use buffi::resolver::Resolver;
use buffi::types::TypeExpression;

fn normal(s: &str) -> PathComponent {
    PathComponent::Normal(s.to_string())
}

fn span_in(module: &str) -> Option<Vec<PathComponent>> {
    Some(vec![normal(module), normal("src"), normal("lib.rs")])
}

fn item(id: u32, name: &str, kind: ItemKind) -> Item {
    Item {
        id,
        local: true,
        name: Some(name.to_string()),
        docs: None,
        attrs: Vec::new(),
        span: span_in("demo"),
        kind,
    }
}

fn field(id: u32, name: &str, ty: TypeExpression) -> Item {
    item(id, name, ItemKind::StructField(ty))
}

fn field_with(id: u32, name: &str, ty: TypeExpression, attrs: &[&str]) -> Item {
    let mut it = field(id, name, ty);
    it.attrs = attrs.iter().map(|a| a.to_string()).collect();
    it
}

fn prim(name: &str) -> TypeExpression {
    TypeExpression::Primitive(name.to_string())
}

fn path(name: &str, id: u32, args: Vec<TypeExpression>) -> TypeExpression {
    TypeExpression::NamedPath { name: name.to_string(), id, args }
}

fn text() -> TypeExpression {
    path("String", 900, Vec::new())
}

fn generic(name: &str) -> TypeExpression {
    TypeExpression::GenericParameter(name.to_string())
}

fn document(name: &str, items: Vec<Item>, paths: Vec<PathSummary>) -> InterfaceDocument {
    InterfaceDocument { name: name.to_string(), items, paths }
}

fn plain(format: Format) -> Lowered {
    Lowered { format, container: None }
}

fn named(name: &str) -> Format {
    Format::NamedType(name.to_string())
}

fn named_field(name: &str, value: Format) -> NamedFormat {
    NamedFormat { name: name.to_string(), value }
}

fn variant(name: &str, value: VariantShape) -> NamedVariant {
    NamedVariant { name: name.to_string(), value }
}

fn optional(f: Format) -> Format {
    Format::Option(Box::new(f))
}

fn error_struct() -> Vec<Item> {
    vec![
        item(50, "SerializableError", ItemKind::Struct(StructShape::Plain(vec![51]))),
        field(51, "message", text()),
    ]
}

fn result_of(ok: TypeExpression, err: TypeExpression) -> TypeExpression {
    path("Result", 901, vec![ok, err])
}

#[test]
fn fallible_call_lowers_to_a_two_variant_enum() {
    let resolver = Resolver::new(document("demo", Vec::new(), Vec::new()))
        .with_error_type("String".to_string());
    let mut memo = TypeCache::new();
    let got = lower_type(&resolver, &result_of(prim("i64"), text()), "demo", &mut memo).unwrap();
    let container = ContainerFormat::Enum(vec![
        variant("Ok", VariantShape::Tuple(vec![Format::I64])),
        variant("Err", VariantShape::Tuple(vec![Format::Str])),
    ]);
    assert_eq!(
        got,
        vec![
            plain(Format::I64),
            plain(Format::Str),
            Lowered { format: named("Result_i64_String"), container: Some(container) },
        ]
    );
}

#[test]
fn fallible_call_uses_the_error_type_of_the_pass() {
    let resolver = Resolver::new(document("demo", error_struct(), Vec::new()));
    let mut memo = TypeCache::new();
    let got = lower_type(&resolver, &result_of(prim("i64"), text()), "demo", &mut memo).unwrap();
    let last = got.last().unwrap();
    assert_eq!(last.format, named("Result_i64_SerializableError"));
    assert_eq!(
        last.container,
        Some(ContainerFormat::Enum(vec![
            variant("Ok", VariantShape::Tuple(vec![Format::I64])),
            variant("Err", VariantShape::Tuple(vec![named("SerializableError")])),
        ]))
    );
    assert_eq!(
        got[2],
        Lowered {
            format: named("SerializableError"),
            container: Some(ContainerFormat::Struct(vec![named_field("message", Format::Str)])),
        }
    );
}

#[test]
fn fallible_call_without_the_error_type_fails() {
    let resolver = Resolver::new(document("demo", Vec::new(), Vec::new()));
    let mut memo = TypeCache::new();
    let got = lower_type(&resolver, &result_of(prim("i64"), text()), "demo", &mut memo);
    assert_eq!(got, Err(BuildError::UnknownIdentifier));
}

fn custom_type_items() -> Vec<Item> {
    let custom = path("CustomType", 1, Vec::new());
    let itself = path("Option", 902, vec![path("Box", 903, vec![custom])]);
    vec![
        item(1, "CustomType", ItemKind::Struct(StructShape::Plain(vec![2, 3, 4]))),
        field(2, "some_content", prim("i64")),
        field(3, "itself", itself),
        field(4, "random_enum", path("RandomEnum", 5, Vec::new())),
        item(5, "RandomEnum", ItemKind::Enum(vec![6, 7])),
        item(6, "NoValue", ItemKind::Variant(VariantPayload::Plain)),
        item(7, "TimeStamp", ItemKind::Variant(VariantPayload::Tuple(vec![Some(8)]))),
        field_with(
            8,
            "0",
            path("DateTime", 904, vec![path("Utc", 905, Vec::new())]),
            &["#[serde(with = \"crate::DateTimeHelper\")]"],
        ),
        item(9, "DateTimeHelper", ItemKind::Struct(StructShape::Plain(vec![10]))),
        field(10, "milliseconds_since_unix_epoch", prim("i64")),
    ]
}

fn custom_type_paths() -> Vec<PathSummary> {
    vec![PathSummary {
        id: 9,
        path: vec!["demo".to_string(), "DateTimeHelper".to_string()],
        kind: SummaryKind::Struct,
    }]
}

#[test]
fn self_referential_struct_is_defined_once() {
    let resolver = Resolver::new(document("demo", custom_type_items(), custom_type_paths()));
    let mut memo = TypeCache::new();
    let got =
        lower_type(&resolver, &path("CustomType", 1, Vec::new()), "demo", &mut memo).unwrap();
    let helper = ContainerFormat::Struct(vec![named_field(
        "milliseconds_since_unix_epoch",
        Format::I64,
    )]);
    let random = ContainerFormat::Enum(vec![
        variant("NoValue", VariantShape::Unit),
        variant("TimeStamp", VariantShape::NewType(named("DateTimeHelper"))),
    ]);
    let custom = ContainerFormat::Struct(vec![
        named_field("some_content", Format::I64),
        named_field("itself", optional(named("CustomType"))),
        named_field("random_enum", named("RandomEnum")),
    ]);
    assert_eq!(
        got,
        vec![
            plain(Format::I64),
            plain(named("CustomType")),
            plain(optional(named("CustomType"))),
            plain(Format::I64),
            Lowered { format: named("DateTimeHelper"), container: Some(helper) },
            Lowered { format: named("RandomEnum"), container: Some(random) },
            Lowered { format: named("CustomType"), container: Some(custom) },
        ]
    );
    let definitions = got
        .iter()
        .filter(|l| l.format == named("CustomType") && l.container.is_some())
        .count();
    assert_eq!(definitions, 1);
}

#[test]
fn lowering_twice_returns_the_same_and_registers_once() {
    let resolver = Resolver::new(document("demo", custom_type_items(), custom_type_paths()));
    let mut memo = TypeCache::new();
    let expr = path("CustomType", 1, Vec::new());
    let first = lower_type(&resolver, &expr, "demo", &mut memo).unwrap();
    let second = lower_type(&resolver, &expr, "demo", &mut memo).unwrap();
    assert_eq!(first, second);
    let mut registry = Registry::new();
    registry.register(first);
    let mut again = Registry::new();
    again.register(lower_type(&resolver, &expr, "demo", &mut memo).unwrap());
    again.register(second);
    assert_eq!(registry.entries, again.entries);
    assert_eq!(registry.entries.len(), 3);
    assert_eq!(registry.entries.iter().filter(|e| e.name == "CustomType").count(), 1);
}

fn wrapper_items() -> Vec<Item> {
    vec![
        item(20, "Wrapper", ItemKind::Struct(StructShape::Plain(vec![21]))),
        field(21, "value", generic("T")),
    ]
}

#[test]
fn generic_struct_is_monomorphized_per_argument() {
    let resolver = Resolver::new(document("demo", wrapper_items(), Vec::new()));
    let mut memo = TypeCache::new();
    let with_int =
        lower_type(&resolver, &path("Wrapper", 20, vec![prim("i64")]), "demo", &mut memo)
            .unwrap();
    let with_text =
        lower_type(&resolver, &path("Wrapper", 20, vec![text()]), "demo", &mut memo).unwrap();
    assert_eq!(
        with_int.last().unwrap(),
        &Lowered {
            format: named("Wrapper_i64"),
            container: Some(ContainerFormat::Struct(vec![named_field("value", Format::I64)])),
        }
    );
    assert_eq!(
        with_text.last().unwrap(),
        &Lowered {
            format: named("Wrapper_String"),
            container: Some(ContainerFormat::Struct(vec![named_field("value", Format::Str)])),
        }
    );
    let mut registry = Registry::new();
    registry.register(with_int);
    registry.register(with_text);
    assert_eq!(registry.entries.len(), 2);
    assert!(registry.get("Wrapper_i64").is_some());
    assert!(registry.get("Wrapper_String").is_some());
    assert!(registry.get("Wrapper").is_none());
}

#[test]
fn generic_parameter_without_one_argument_is_unsupported() {
    let resolver = Resolver::new(document("demo", wrapper_items(), Vec::new()));
    let mut memo = TypeCache::new();
    let got = lower_type(&resolver, &generic("T"), "demo", &mut memo);
    assert_eq!(got, Err(BuildError::UnsupportedShape));
    let two = vec![prim("i64"), prim("u8")];
    let got = lower(&resolver, &generic("T"), &two, "demo", &mut memo, DEPTH_LIMIT);
    assert_eq!(got, Err(BuildError::UnsupportedShape));
}

fn overridden_items(attrs: &[&str]) -> Vec<Item> {
    vec![
        item(30, "Record", ItemKind::Struct(StructShape::Plain(vec![31]))),
        field_with(31, "when", path("Helper", 32, Vec::new()), attrs),
        item(32, "Helper", ItemKind::Struct(StructShape::Plain(vec![33]))),
        field(33, "ticks", prim("u64")),
    ]
}

#[test]
fn overridden_field_registers_as_text() {
    let attrs = [
        "#[serde(serialize_with = \"String::serialize\")]",
        "#[serde(deserialize_with = \"String::deserialize\")]",
    ];
    let resolver = Resolver::new(document("demo", overridden_items(&attrs), Vec::new()));
    let mut memo = TypeCache::new();
    let got = lower_type(&resolver, &path("Record", 30, Vec::new()), "demo", &mut memo).unwrap();
    assert_eq!(
        got,
        vec![
            plain(Format::Str),
            Lowered {
                format: named("Record"),
                container: Some(ContainerFormat::Struct(vec![named_field("when", Format::Str)])),
            },
        ]
    );
}

#[test]
fn field_without_override_keeps_its_native_shape() {
    let resolver = Resolver::new(document("demo", overridden_items(&[]), Vec::new()));
    let mut memo = TypeCache::new();
    let got = lower_type(&resolver, &path("Record", 30, Vec::new()), "demo", &mut memo).unwrap();
    assert_eq!(
        got.last().unwrap().container,
        Some(ContainerFormat::Struct(vec![named_field("when", named("Helper"))]))
    );
}

#[test]
fn disagreeing_overrides_are_a_configuration_mismatch() {
    let attrs = [
        "#[serde(serialize_with = \"String::serialize\")]",
        "#[serde(deserialize_with = \"demo::Helper::deserialize\")]",
    ];
    let resolver = Resolver::new(document("demo", overridden_items(&attrs), Vec::new()));
    let mut memo = TypeCache::new();
    let got = lower_type(&resolver, &path("Record", 30, Vec::new()), "demo", &mut memo);
    assert_eq!(got, Err(BuildError::ConfigurationMismatch));
}

#[test]
fn one_sided_override_is_a_configuration_mismatch() {
    let attrs = ["#[serde(serialize_with = \"String::serialize\")]"];
    let resolver = Resolver::new(document("demo", overridden_items(&attrs), Vec::new()));
    let mut memo = TypeCache::new();
    let got = lower_type(&resolver, &path("Record", 30, Vec::new()), "demo", &mut memo);
    assert_eq!(got, Err(BuildError::ConfigurationMismatch));
}

#[test]
fn primitives_map_to_fixed_width_formats() {
    let resolver = Resolver::new(document("demo", Vec::new(), Vec::new()));
    let cases = [
        ("i8", Format::I8),
        ("i16", Format::I16),
        ("i32", Format::I32),
        ("i64", Format::I64),
        ("u8", Format::U8),
        ("u16", Format::U16),
        ("u32", Format::U32),
        ("u64", Format::U64),
        ("bool", Format::Bool),
        ("f32", Format::F32),
        ("f64", Format::F64),
        ("usize", Format::U64),
        ("isize", Format::I64),
    ];
    for (name, format) in cases {
        let mut memo = TypeCache::new();
        let got = lower_type(&resolver, &prim(name), "demo", &mut memo).unwrap();
        assert_eq!(got, vec![plain(format)]);
    }
    let mut memo = TypeCache::new();
    assert_eq!(
        lower_type(&resolver, &prim("u128"), "demo", &mut memo),
        Err(BuildError::UnsupportedShape)
    );
}

#[test]
fn wrappers_tuples_and_arrays() {
    let resolver = Resolver::new(document("demo", Vec::new(), Vec::new()));
    let mut memo = TypeCache::new();
    let list = path("std::vec::Vec", 906, vec![prim("u8")]);
    assert_eq!(
        lower_type(&resolver, &list, "demo", &mut memo).unwrap(),
        vec![plain(Format::U8), plain(Format::Sequence(Box::new(Format::U8)))]
    );
    let maybe = path("Option", 907, vec![text()]);
    assert_eq!(
        lower_type(&resolver, &maybe, "demo", &mut memo).unwrap(),
        vec![plain(Format::Str), plain(optional(Format::Str))]
    );
    let pair = TypeExpression::Tuple(vec![prim("i32"), text()]);
    assert_eq!(
        lower_type(&resolver, &pair, "demo", &mut memo).unwrap(),
        vec![
            plain(Format::I32),
            plain(Format::Str),
            plain(Format::Tuple(vec![Format::I32, Format::Str])),
        ]
    );
    let unit = TypeExpression::Tuple(Vec::new());
    assert_eq!(
        lower_type(&resolver, &unit, "demo", &mut memo).unwrap(),
        vec![plain(Format::Tuple(Vec::new()))]
    );
    let array = TypeExpression::FixedArray { elem: Box::new(prim("u8")), len: "16".to_string() };
    assert_eq!(
        lower_type(&resolver, &array, "demo", &mut memo).unwrap(),
        vec![plain(Format::FixedArray { elem: Box::new(Format::U8), len: 16 })]
    );
    let bad = TypeExpression::FixedArray { elem: Box::new(prim("u8")), len: "N".to_string() };
    assert_eq!(
        lower_type(&resolver, &bad, "demo", &mut memo),
        Err(BuildError::UnsupportedShape)
    );
    let boxed = TypeExpression::OwnedIndirection(Box::new(prim("i64")));
    assert_eq!(lower_type(&resolver, &boxed, "demo", &mut memo).unwrap(), vec![plain(Format::I64)]);
}

#[test]
fn receiver_is_erased_and_other_shapes_are_unsupported() {
    let resolver = Resolver::new(document("demo", Vec::new(), Vec::new()));
    let mut memo = TypeCache::new();
    let receiver = TypeExpression::Reference(Box::new(generic("Self")));
    assert_eq!(lower_type(&resolver, &receiver, "demo", &mut memo).unwrap(), Vec::new());
    let borrowed = TypeExpression::Reference(Box::new(prim("u8")));
    assert_eq!(
        lower_type(&resolver, &borrowed, "demo", &mut memo),
        Err(BuildError::UnsupportedShape)
    );
    let pointer = TypeExpression::RawPointer { mutable: false, target: Box::new(prim("u8")) };
    assert_eq!(
        lower_type(&resolver, &pointer, "demo", &mut memo),
        Err(BuildError::UnsupportedShape)
    );
    assert_eq!(
        lower_type(&resolver, &TypeExpression::FunctionPointer, "demo", &mut memo),
        Err(BuildError::UnsupportedShape)
    );
    assert_eq!(
        lower_type(&resolver, &TypeExpression::Unsupported, "demo", &mut memo),
        Err(BuildError::UnsupportedShape)
    );
}

#[test]
fn type_alias_is_transparent() {
    let items = vec![item(40, "Meters", ItemKind::TypeAlias(prim("u32")))];
    let resolver = Resolver::new(document("demo", items, Vec::new()));
    let mut memo = TypeCache::new();
    let got = lower_type(&resolver, &path("Meters", 40, Vec::new()), "demo", &mut memo).unwrap();
    assert_eq!(got, vec![plain(Format::U32)]);
}

#[test]
fn nesting_beyond_the_depth_is_unsupported() {
    let resolver = Resolver::new(document("demo", Vec::new(), Vec::new()));
    let mut memo = TypeCache::new();
    let nested = path("Option", 907, vec![path("Option", 907, vec![prim("u8")])]);
    let none: Vec<TypeExpression> = Vec::new();
    assert_eq!(
        lower(&resolver, &nested, &none, "demo", &mut memo, 2),
        Err(BuildError::UnsupportedShape)
    );
    let mut memo = TypeCache::new();
    assert_eq!(
        lower(&resolver, &nested, &none, "demo", &mut memo, 3).unwrap().len(),
        3
    );
}

#[test]
fn enum_variants_take_their_shape_from_their_payloads() {
    let items = vec![
        item(60, "Shape", ItemKind::Enum(vec![61, 62, 63, 64])),
        item(61, "Empty", ItemKind::Variant(VariantPayload::Plain)),
        item(62, "Circle", ItemKind::Variant(VariantPayload::Tuple(vec![Some(65)]))),
        item(63, "Rect", ItemKind::Variant(VariantPayload::Tuple(vec![Some(66), None, Some(67)]))),
        item(64, "Named", ItemKind::Variant(VariantPayload::Struct(vec![68]))),
        field(65, "0", prim("u32")),
        field(66, "0", prim("u32")),
        field(67, "2", prim("u16")),
        field(68, "label", text()),
    ];
    let resolver = Resolver::new(document("demo", items, Vec::new()));
    let mut memo = TypeCache::new();
    let got = lower_type(&resolver, &path("Shape", 60, Vec::new()), "demo", &mut memo).unwrap();
    assert_eq!(
        got.last().unwrap().container,
        Some(ContainerFormat::Enum(vec![
            variant("Empty", VariantShape::Unit),
            variant("Circle", VariantShape::NewType(Format::U32)),
            variant("Rect", VariantShape::Tuple(vec![Format::U32, Format::U16])),
            variant("Named", VariantShape::Struct(vec![named_field("label", Format::Str)])),
        ]))
    );
}

#[test]
fn indirection_to_a_pending_type_is_answered_by_name_alone() {
    // No document holds the inner type: the answer comes from the mark.
    let resolver = Resolver::new(document("demo", Vec::new(), Vec::new()));
    let inner = path("crate::CustomType", 1, Vec::new());
    let boxed = path("Box", 903, vec![path("crate::CustomType", 1, Vec::new())]);
    let ambient: Vec<TypeExpression> = Vec::new();
    let mut memo = TypeCache::new();
    memo.set(&boxed, &ambient, CacheState::Pending);
    memo.set(&inner, &ambient, CacheState::Pending);
    let got = lower(&resolver, &boxed, &ambient, "demo", &mut memo, DEPTH_LIMIT);
    assert_eq!(got, Ok(vec![plain(named("CustomType"))]));
    assert_eq!(memo.entries.len(), 2);
    assert!(memo.is_pending(&boxed, &ambient));
    assert!(memo.is_pending(&inner, &ambient));
    assert_eq!(memo.cached(&boxed, &ambient), None);
    // Without the mark the inner type is resolved, and is not found.
    let mut fresh = TypeCache::new();
    let missing = lower(&resolver, &boxed, &ambient, "demo", &mut fresh, DEPTH_LIMIT);
    assert_eq!(missing, Err(BuildError::UnknownIdentifier));
    // The same holds for the indirection written as such.
    let owned = TypeExpression::OwnedIndirection(Box::new(path("crate::CustomType", 1, Vec::new())));
    let mut marked = TypeCache::new();
    marked.set(&inner, &ambient, CacheState::Pending);
    let again = lower(&resolver, &owned, &ambient, "demo", &mut marked, DEPTH_LIMIT);
    assert_eq!(again, Ok(vec![plain(named("CustomType"))]));
    assert_eq!(marked.entries.len(), 1);
}

#[test]
fn pending_instance_is_answered_by_its_monomorphized_name() {
    let ambient: Vec<TypeExpression> = Vec::new();
    let instance = || path("demo::Wrapper", 1, vec![prim("i64")]);
    // Behind an indirection the item is not looked up: no document holds it.
    let bare = Resolver::new(document("demo", Vec::new(), Vec::new()));
    let boxed = path("Box", 903, vec![instance()]);
    let mut memo = TypeCache::new();
    memo.set(&instance(), &ambient, CacheState::Pending);
    let got = lower(&bare, &boxed, &ambient, "demo", &mut memo, DEPTH_LIMIT);
    assert_eq!(got, Ok(vec![plain(named("Wrapper_i64"))]));
    assert_eq!(memo.entries.len(), 1);
    assert!(memo.is_pending(&instance(), &ambient));
    assert!(!memo.contains(&prim("i64"), &ambient));
    assert!(!memo.contains(&boxed, &ambient));
    // Reached directly, the item is resolved, and the memo stays as it is too.
    let resolver = Resolver::new(document(
        "demo",
        vec![
            item(1, "Wrapper", ItemKind::Struct(StructShape::Plain(vec![2]))),
            field(2, "value", generic("T")),
        ],
        Vec::new(),
    ));
    let direct = lower(&resolver, &instance(), &ambient, "demo", &mut memo, DEPTH_LIMIT);
    assert_eq!(direct, Ok(vec![plain(named("Wrapper_i64"))]));
    assert_eq!(memo.entries.len(), 1);
    let again = lower(&resolver, &instance(), &ambient, "demo", &mut memo, DEPTH_LIMIT);
    assert_eq!(again, direct);
}

#[test]
fn copy_of_a_memo_holds_the_same_states() {
    let ambient: Vec<TypeExpression> = Vec::new();
    let mut memo = TypeCache::new();
    memo.set(&prim("i64"), &ambient, CacheState::Cached(vec![plain(Format::I64)]));
    memo.set(&text(), &ambient, CacheState::Pending);
    let copy = memo.duplicate();
    assert_eq!(copy.entries.len(), 2);
    assert_eq!(copy.cached(&prim("i64"), &ambient), Some(vec![plain(Format::I64)]));
    assert!(copy.is_pending(&text(), &ambient));
    assert!(!copy.contains(&prim("u8"), &ambient));
}
