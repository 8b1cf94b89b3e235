use buffi::annotation::{
    expand, AttributeInput, AttributeValue, BuffiAnnotation, FieldAttributes, SerdeAttr,
    VerifyAttribute, VerifyAttributes,
};
use buffi::config::{Config, DocumentationPlan};
use buffi::document::{
    InterfaceDocument, Item, ItemKind, PathComponent, PathSummary, StructShape, SummaryKind,
};
use buffi::error::BuildError;
use buffi::format::Format;
use buffi::order::sort_order;
use buffi::resolver::{crate_from_span, Place, Resolver};
use buffi::text::{
    ascii_lowercase, before_last, join, lines_of, name_without_path, owner_path, parse_decimal, parse_unsigned,
    replace_dashes, split_path, strip_affixes, text_before_or_equal,
};
use buffi::types::TypeExpression;

fn strings(v: &[&str]) -> Vec<String> {
    v.iter().map(|s| s.to_string()).collect()
}

fn head(name: &str) -> AttributeInput {
    AttributeInput { head: Some(name.to_string()), value: None, more: false }
}

fn with_path(name: &str, path: &str) -> AttributeInput {
    AttributeInput {
        head: Some(name.to_string()),
        value: Some(AttributeValue::Path(path.to_string())),
        more: false,
    }
}

fn with_literal(name: &str, text: &str) -> AttributeInput {
    AttributeInput {
        head: Some(name.to_string()),
        value: Some(AttributeValue::Literal(text.to_string())),
        more: false,
    }
}

fn field(declared: &str, buffi: Vec<AttributeInput>, serde: Vec<AttributeInput>) -> FieldAttributes {
    FieldAttributes { declared_type: declared.to_string(), buffi, serde }
}

const SKIP_MISTAKE: &str =
    "`#[buffi(skip)]` requires `#[serde(default)]` and `#[serde(skip)]` as well";
const MISMATCH: &str =
    "`#[serde(serialize_with)]` needs to refer to the same type as `#[serde(deserialize_with)]`";
const ONE_SIDED: &str =
    "`#[buffi(type)]` requires both `#[serde(serialize_with)]` and `#[serde(deserialize_with)]`";

#[test]
fn annotations_are_read_from_their_arguments() {
    assert_eq!(
        BuffiAnnotation::parse(&with_path("type", "String")),
        Ok(BuffiAnnotation::Tpe("String".to_string()))
    );
    assert_eq!(BuffiAnnotation::parse(&head("skip")), Ok(BuffiAnnotation::Skip));
    assert_eq!(
        BuffiAnnotation::parse(&with_path("skip", "x")),
        Err("unexpected tokens".to_string())
    );
    assert_eq!(
        BuffiAnnotation::parse(&head("rename")),
        Err("Expected `type`, but got `rename`".to_string())
    );
    assert!(BuffiAnnotation::parse(&head("type")).is_err());
    assert!(BuffiAnnotation::parse(&AttributeInput { head: None, value: None, more: true })
        .is_err());
    assert_eq!(SerdeAttr::parse(&head("default")), Ok(SerdeAttr::Default));
    assert_eq!(SerdeAttr::parse(&head("skip")), Ok(SerdeAttr::Skip));
    assert_eq!(SerdeAttr::parse(&head("flatten")), Ok(SerdeAttr::Unknown));
    assert_eq!(
        SerdeAttr::parse(&with_literal("serialize_with", "a::b::ser")),
        Ok(SerdeAttr::SerializeWith("a::b::ser".to_string()))
    );
    assert_eq!(
        SerdeAttr::parse(&with_literal("deserialize_with", "a::b::de")),
        Ok(SerdeAttr::DeserializeWith("a::b::de".to_string()))
    );
    assert!(SerdeAttr::parse(&with_path("serialize_with", "a::b")).is_err());
    let mut trailing = head("default");
    trailing.more = true;
    assert!(SerdeAttr::parse(&trailing).is_err());
}

#[test]
fn skipped_field_must_be_skipped_by_serialization() {
    let mut check = VerifyAttributes::new();
    check.visit_field(&field("u8", vec![head("skip")], vec![head("skip"), head("default")]));
    assert!(check.errors.is_empty());
    assert!(check.tps.is_empty());
    check.visit_field(&field("u8", vec![head("skip")], vec![head("skip")]));
    assert_eq!(check.errors, strings(&[SKIP_MISTAKE]));
    check.visit_field(&field("u8", vec![head("skip")], Vec::new()));
    assert_eq!(check.errors, strings(&[SKIP_MISTAKE, SKIP_MISTAKE]));
}

#[test]
fn stated_type_gives_rise_to_an_obligation() {
    let mut check = VerifyAttributes::new();
    check.visit_field(&field("PathBuf", vec![with_path("type", "String")], Vec::new()));
    assert_eq!(
        check.tps,
        vec![VerifyAttribute { rust_type: "PathBuf".to_string(), cpp_type: "String".to_string() }]
    );
    check.visit_field(&field(
        "DateTime<Utc>",
        vec![with_path("type", "i64")],
        vec![
            with_literal("serialize_with", "crate::Helper::serialize"),
            with_literal("deserialize_with", "crate::Helper::deserialize"),
        ],
    ));
    assert_eq!(
        check.tps[1],
        VerifyAttribute { rust_type: "crate::Helper".to_string(), cpp_type: "i64".to_string() }
    );
    assert!(check.errors.is_empty());
}

#[test]
fn functions_of_different_types_or_one_side_only_are_mistakes() {
    let mut check = VerifyAttributes::new();
    check.visit_field(&field(
        "T",
        vec![with_path("type", "String")],
        vec![
            with_literal("serialize_with", "a::A::ser"),
            with_literal("deserialize_with", "a::B::de"),
        ],
    ));
    assert_eq!(check.errors, strings(&[MISMATCH]));
    assert_eq!(
        check.tps,
        vec![VerifyAttribute { rust_type: "T".to_string(), cpp_type: "String".to_string() }]
    );
    check.visit_field(&field(
        "T",
        vec![with_path("type", "String")],
        vec![with_literal("serialize_with", "a::A::ser")],
    ));
    assert_eq!(check.errors, strings(&[MISMATCH, ONE_SIDED]));
    check.visit_field(&field("T", vec![head("rename")], Vec::new()));
    assert_eq!(check.errors.len(), 3);
    assert_eq!(check.errors[2], "Expected `type`, but got `rename`");
    assert_eq!(check.tps.len(), 2);
}

#[test]
fn fields_expand_to_one_item_of_bounds() {
    let fields = vec![
        field("PathBuf", vec![with_path("type", "String")], Vec::new()),
        field("u8", Vec::new(), Vec::new()),
        field("Vec<PathBuf>", vec![with_path("type", "Vec<String>")], Vec::new()),
    ];
    assert_eq!(
        expand(&fields),
        Ok(strings(&[
            "const _: () = {",
            "    fn __check()",
            "    where",
            "        String: buffi::SafeTypeMapping<PathBuf>,",
            "        Vec<String>: buffi::SafeTypeMapping<Vec<PathBuf>>,",
            "    {}",
            "};",
        ]))
    );
    assert_eq!(expand(&vec![field("u8", Vec::new(), Vec::new())]), Ok(Vec::new()));
    let mistaken = vec![
        field("u8", vec![head("skip")], Vec::new()),
        field("T", vec![with_path("type", "S")], vec![with_literal("serialize_with", "a::b")]),
        field("u8", vec![head("other")], Vec::new()),
    ];
    assert_eq!(
        expand(&mistaken),
        Err(strings(&["Expected `type`, but got `other`", SKIP_MISTAKE, ONE_SIDED]))
    );
}

#[test]
fn configuration_starts_with_the_required_fields() {
    let mut config = Config::new(
        "Api".to_string(),
        "my-api".to_string(),
        "my_crate".to_string(),
        strings(&["my-crate", "other"]),
    );
    assert_eq!(config.namespace, "Api");
    assert_eq!(config.api_lib_name, "my-api");
    assert_eq!(config.parent_crate, "my_crate");
    assert_eq!(config.rustdoc_crates, strings(&["my-crate", "other"]));
    assert_eq!(config.file_prefix, None);
    assert_eq!(config.copyright_header, None);
    assert_eq!(config.generated_by_header, None);
    assert_eq!(config.crate_feature_flags, None);
    assert_eq!(config.rustdoc_flags, None);
    assert_eq!(config.file_prefix(), "my-api");
    config.extend_rustdoc_flags(strings(&["--verbose"]));
    assert_eq!(config.rustdoc_flags, Some(strings(&["--verbose"])));
    config.extend_rustdoc_flags(strings(&["-q", "--locked"]));
    assert_eq!(config.rustdoc_flags, Some(strings(&["--verbose", "-q", "--locked"])));
    config.extend_rustdoc_flags(Vec::new());
    assert_eq!(config.rustdoc_flags, Some(strings(&["--verbose", "-q", "--locked"])));
    config.crate_feature_flags = Some(strings(&["my-crate/extra"]));
    assert_eq!(
        config.documentation_plan(),
        Some(DocumentationPlan {
            arguments: strings(&[
                "--no-deps",
                "-p",
                "my-crate",
                "-p",
                "other",
                "-F",
                "my-crate/extra",
                "--verbose",
                "-q",
                "--locked",
            ]),
            bootstrap_crates: "my_api,my_crate,other".to_string(),
        })
    );
    config.rustdoc_crates = Vec::new();
    assert_eq!(config.documentation_plan(), None);
}

fn normal(s: &str) -> PathComponent {
    PathComponent::Normal(s.to_string())
}

fn spanned(id: u32, name: &str, local: bool, span: Vec<PathComponent>, kind: ItemKind) -> Item {
    Item {
        id,
        local,
        name: Some(name.to_string()),
        docs: None,
        attrs: Vec::new(),
        span: Some(span),
        kind,
    }
}

fn relative(module: &str) -> Vec<PathComponent> {
    vec![normal(module), normal("src"), normal("lib.rs")]
}

#[test]
fn module_is_inferred_from_the_source_path() {
    let unit = ItemKind::Struct(StructShape::Unit);
    let at = |span: Vec<PathComponent>| {
        crate_from_span(&spanned(1, "S", true, span, ItemKind::Struct(StructShape::Unit)))
    };
    assert_eq!(at(relative("my-crate")), Ok("my_crate".to_string()));
    assert_eq!(
        at(vec![normal("ws"), normal("nested-crate"), normal("src"), normal("a"), normal("b.rs")]),
        Ok("nested_crate".to_string())
    );
    assert_eq!(at(vec![normal("single"), normal("lib.rs")]), Ok("single".to_string()));
    assert_eq!(
        at(vec![normal("a"), normal("src"), normal("src"), normal("x.rs")]),
        Ok("src".to_string())
    );
    assert_eq!(
        at(vec![normal("a"), PathComponent::ParentDir, normal("src"), normal("x.rs")]),
        Err(BuildError::UnknownIdentifier)
    );
    let registry = vec![
        PathComponent::RootDir,
        normal("home"),
        normal("me"),
        normal(".cargo"),
        normal("registry"),
        normal("src"),
        normal("github.com-1ecc6299db9ec823"),
        normal("giga-segy-core-0.3.2"),
        normal("src"),
        normal("header_structs.rs"),
    ];
    assert_eq!(at(registry), Ok("giga_segy_core".to_string()));
    assert_eq!(
        at(vec![PathComponent::RootDir, normal("home"), normal("x.rs")]),
        Err(BuildError::UnknownIdentifier)
    );
    assert_eq!(
        at(vec![
            PathComponent::Prefix,
            normal("cargo"),
            normal("registry"),
            normal("src"),
            normal("index"),
            normal("noversion"),
        ]),
        Err(BuildError::UnknownIdentifier)
    );
    assert_eq!(at(vec![PathComponent::CurDir, normal("a")]), Err(BuildError::UnknownIdentifier));
    assert_eq!(at(Vec::new()), Err(BuildError::UnknownIdentifier));
    let mut without = spanned(1, "S", true, Vec::new(), unit);
    without.span = None;
    assert_eq!(crate_from_span(&without), Err(BuildError::UnknownIdentifier));
}

fn doc(name: &str, items: Vec<Item>, paths: Vec<PathSummary>) -> InterfaceDocument {
    InterfaceDocument { name: name.to_string(), items, paths }
}

fn unit(id: u32, name: &str, local: bool, module: &str) -> Item {
    spanned(id, name, local, relative(module), ItemKind::Struct(StructShape::Unit))
}

#[test]
fn identifier_resolves_to_its_one_candidate() {
    let mut resolver = Resolver::new(doc("main", vec![unit(1, "A", true, "main")], Vec::new()));
    resolver.add_document(doc("dep", vec![unit(2, "B", true, "dep")], Vec::new()));
    assert_eq!(resolver.resolve_by_id(1, "main"), Ok(Place { document: 0, item: 0 }));
    assert_eq!(resolver.resolve_by_id(2, "main"), Ok(Place { document: 1, item: 0 }));
    assert_eq!(resolver.item(Place { document: 1, item: 0 }).name, Some("B".to_string()));
    assert_eq!(resolver.resolve_by_id(3, "main"), Err(BuildError::UnknownIdentifier));
}

#[test]
fn several_candidates_need_a_local_one_from_the_origin() {
    let mut resolver = Resolver::new(doc("main", vec![unit(1, "A", true, "main")], Vec::new()));
    resolver.add_document(doc("dep", vec![unit(1, "B", true, "dep")], Vec::new()));
    assert_eq!(resolver.resolve_by_id(1, "main"), Ok(Place { document: 0, item: 0 }));
    assert_eq!(resolver.resolve_by_id(1, "dep"), Ok(Place { document: 1, item: 0 }));
    assert_eq!(resolver.resolve_by_id(1, "third"), Err(BuildError::AmbiguousResolution));
    let mut foreign = Resolver::new(doc("main", vec![unit(1, "A", false, "main")], Vec::new()));
    foreign.add_document(doc("dep", vec![unit(1, "B", true, "dep")], Vec::new()));
    assert_eq!(foreign.resolve_by_id(1, "main"), Err(BuildError::AmbiguousResolution));
}

#[test]
fn summaries_lead_to_the_item_by_name_and_kind() {
    let summary = PathSummary {
        id: 7,
        path: vec!["dep".to_string(), "inner".to_string(), "Thing".to_string()],
        kind: SummaryKind::Struct,
    };
    let mut resolver = Resolver::new(doc("main", Vec::new(), vec![summary.clone()]));
    assert_eq!(
        resolver.resolve_by_id(7, "main"),
        Err(BuildError::MissingDocument("dep".to_string()))
    );
    assert!(!resolver.has_document("dep"));
    let alias = spanned(40, "Thing", true, relative("dep"), ItemKind::TypeAlias(
        TypeExpression::Primitive("u8".to_string()),
    ));
    resolver.add_document(doc("dep", vec![alias, unit(41, "Thing", true, "dep")], Vec::new()));
    assert!(resolver.has_document("dep"));
    assert_eq!(resolver.resolve_by_id(7, "main"), Ok(Place { document: 1, item: 1 }));
    resolver.add_document(doc("dep", Vec::new(), Vec::new()));
    assert_eq!(resolver.documents.len(), 2);
    assert_eq!(resolver.documents[1].items.len(), 2);
    let enum_summary = PathSummary { kind: SummaryKind::Enum, ..summary };
    let mut other = Resolver::new(doc("main", Vec::new(), vec![enum_summary]));
    other.add_document(doc("dep", vec![unit(41, "Thing", true, "dep")], Vec::new()));
    assert_eq!(other.resolve_by_id(7, "main"), Err(BuildError::UnknownIdentifier));
}

#[test]
fn path_resolves_to_an_item_of_the_expected_kind() {
    let summary = |id: u32, path: &[&str], kind: SummaryKind| PathSummary {
        id,
        path: strings(path),
        kind,
    };
    let resolver = Resolver::new(doc(
        "main",
        Vec::new(),
        vec![
            summary(5, &["main", "DateTimeHelper"], SummaryKind::Struct),
            summary(6, &["main", "Mode"], SummaryKind::Enum),
        ],
    ));
    let expected = TypeExpression::NamedPath {
        name: "DateTimeHelper".to_string(),
        id: 5,
        args: Vec::new(),
    };
    assert_eq!(
        resolver.resolve_by_path("crate::DateTimeHelper", "main", SummaryKind::Struct).as_ref(),
        Ok(&expected)
    );
    assert_eq!(
        resolver.resolve_by_path("main::DateTimeHelper", "other", SummaryKind::Struct).as_ref(),
        Ok(&expected)
    );
    assert_eq!(
        resolver.resolve_by_path("main::Mode", "main", SummaryKind::Struct),
        Err(BuildError::UnknownIdentifier)
    );
    assert_eq!(
        resolver.resolve_by_path("main::Missing", "main", SummaryKind::Struct),
        Err(BuildError::UnknownIdentifier)
    );
    assert_eq!(
        resolver.resolve_by_path("dep::Thing", "main", SummaryKind::Struct),
        Err(BuildError::MissingDocument("dep".to_string()))
    );
    assert_eq!(
        BuildError::MissingDocument("dep".to_string()).message(),
        "failed to find docs for dep"
    );
}

#[test]
fn names_and_paths_are_taken_apart() {
    assert_eq!(name_without_path("a::b::Name"), "Name");
    assert_eq!(name_without_path("Name"), "Name");
    assert_eq!(name_without_path("a::"), "");
    assert_eq!(name_without_path("a:::b"), "b");
    assert_eq!(owner_path("a::b::f"), Some("a::b".to_string()));
    assert_eq!(owner_path("f"), None);
    assert_eq!(split_path("a::b::c"), strings(&["a", "b", "c"]));
    assert_eq!(split_path("plain"), strings(&["plain"]));
    assert_eq!(split_path(""), strings(&[""]));
    assert_eq!(split_path("::a::"), strings(&["", "a", ""]));
    assert_eq!(split_path("a:::b"), strings(&["a", ":b"]));
    assert_eq!(replace_dashes("my-own-crate"), "my_own_crate");
    assert_eq!(before_last("serde-json-1.0.1", '-'), Some("serde-json".to_string()));
    assert_eq!(before_last("plain", '-'), None);
    assert_eq!(join(&strings(&["a", "b", "c"]), ", "), "a, b, c");
    assert_eq!(join(&strings(&["a"]), ", "), "a");
    assert_eq!(join(&Vec::new(), ", "), "");
    assert_eq!(
        strip_affixes("#[serde(with = \"x::Y\")]", "#[serde(with = \"", "\")]"),
        Some("x::Y".to_string())
    );
    assert_eq!(strip_affixes("#[serde(skip)]", "#[serde(with = \"", "\")]"), None);
    assert_eq!(strip_affixes("ab", "ab", "b"), None);
}

#[test]
fn numbers_and_lines_are_read_from_text() {
    assert_eq!(parse_decimal("0"), Some(0));
    assert_eq!(parse_decimal("16"), Some(16));
    assert_eq!(parse_decimal("007"), Some(7));
    assert_eq!(parse_decimal("18446744073709551615"), Some(u64::MAX));
    assert_eq!(parse_decimal("18446744073709551616"), None);
    assert_eq!(parse_decimal("99999999999999999999999"), None);
    assert_eq!(parse_decimal(""), None);
    assert_eq!(parse_decimal("+3"), None);
    assert_eq!(parse_decimal("3usize"), None);
    for text in ["16", "+16", "+", "", "-1", "++1", "1+", "18446744073709551615", "+0", " 1"] {
        assert_eq!(parse_unsigned(text), text.parse::<u64>().ok(), "{text:?}");
    }
    assert_eq!(lines_of("one\ntwo\r\nthree"), strings(&["one", "two", "three"]));
    assert_eq!(lines_of("one\n"), strings(&["one"]));
    assert_eq!(lines_of("\n\nx"), strings(&["", "", "x"]));
    assert_eq!(lines_of("tail\r"), strings(&["tail\r"]));
    assert_eq!(lines_of(""), Vec::<String>::new());
    let text = "a\r\n\nb\n";
    let std_lines: Vec<String> = text.lines().map(|l| l.to_string()).collect();
    assert_eq!(lines_of(text), std_lines);
}

#[test]
fn names_are_ordered_like_the_standard_sort() {
    let names = strings(&["delta", "alpha", "Charlie", "alpha", "", "bravo", "alp"]);
    let order = sort_order(&names);
    assert_eq!(order, vec![4, 2, 6, 1, 3, 5, 0]);
    let mut expected = names.clone();
    expected.sort();
    let arranged: Vec<String> = order.iter().map(|i| names[*i].clone()).collect();
    assert_eq!(arranged, expected);
    assert!(text_before_or_equal("abc", "abd"));
    assert!(text_before_or_equal("abc", "abc"));
    assert!(text_before_or_equal("ab", "abc"));
    assert!(!text_before_or_equal("abc", "ab"));
    assert!(!text_before_or_equal("b", "a"));
    assert!(text_before_or_equal("Z", "a"));
}

#[test]
fn formats_are_named_for_types_and_for_the_caller() {
    let nested = Format::Option(Box::new(Format::Sequence(Box::new(Format::NamedType(
        "Item".to_string(),
    )))));
    assert_eq!(nested.to_type_name(), Some("Option_Vec_Item".to_string()));
    assert_eq!(
        nested.to_caller_type_name(),
        Some("std::optional<std::vector<Item>>".to_string())
    );
    assert_eq!(Format::Str.to_type_name(), Some("String".to_string()));
    assert_eq!(Format::Str.to_caller_type_name(), Some("std::string".to_string()));
    assert_eq!(Format::F32.to_caller_type_name(), Some("float".to_string()));
    assert_eq!(Format::F64.to_caller_type_name(), Some("double".to_string()));
    assert_eq!(Format::U16.to_type_name(), Some("u16".to_string()));
    assert_eq!(Format::Tuple(Vec::new()).to_type_name(), Some("void".to_string()));
    assert_eq!(Format::Tuple(vec![Format::U8]).to_type_name(), None);
    assert_eq!(Format::Tuple(vec![Format::U8]).to_caller_type_name(), None);
    let array = Format::FixedArray { elem: Box::new(Format::U8), len: 4 };
    assert_eq!(array.to_type_name(), None);
    assert_eq!(array.duplicate(), array);
}

#[test]
fn lower_case_touches_the_capitals_of_ascii_only() {
    for text in ["", "TestClient", "ABCXYZ", "already_lower", "Mixed-123_Z", "ÄÖÜ Straße", "@[`{"] {
        assert_eq!(ascii_lowercase(text), text.to_ascii_lowercase());
    }
    assert_eq!(ascii_lowercase("TestClient"), "testclient");
    assert_eq!(ascii_lowercase("AZ@[az`{"), "az@[az`{");
}
