use buffi::cache::TypeCache;
use buffi::caller::{render_callable, CallablePlan, PlannedInput};
use buffi::comments::{collect_comments, DocComment};
use buffi::config::Config;
use buffi::definitions::generate_type_definitions;
use buffi::document::{
    FunctionSignature, InterfaceDocument, Item, ItemKind, Parameter, PathComponent, StructShape,
};
use buffi::emit::{
    emit_bindings, generate_extern_c_function_def, plan_callable, to_c_type, write_function_header,
};
use buffi::error::BuildError;
use buffi::exports::{
    collect_free_functions, collect_groups, is_free_standing_impl, is_relevant_impl,
};
use buffi::format::{ContainerFormat, Format, NamedFormat};
use buffi::resolver::Resolver;
use buffi::types::TypeExpression;

const MARKER: &str = "#[cfg(not(generated_extern_impl))]";

fn item(id: u32, name: &str, kind: ItemKind) -> Item {
    Item {
        id,
        local: true,
        name: Some(name.to_string()),
        docs: None,
        attrs: Vec::new(),
        span: Some(vec![
            PathComponent::Normal("demo".to_string()),
            PathComponent::Normal("src".to_string()),
            PathComponent::Normal("lib.rs".to_string()),
        ]),
        kind,
    }
}

fn exported(mut it: Item, docs: &str) -> Item {
    it.attrs.push(MARKER.to_string());
    it.docs = Some(docs.to_string());
    it
}

fn prim(name: &str) -> TypeExpression {
    TypeExpression::Primitive(name.to_string())
}

fn path(name: &str, id: u32, args: Vec<TypeExpression>) -> TypeExpression {
    TypeExpression::NamedPath { name: name.to_string(), id, args }
}

fn text() -> TypeExpression {
    path("String", 900, Vec::new())
}

fn receiver() -> TypeExpression {
    TypeExpression::Reference(Box::new(TypeExpression::GenericParameter("Self".to_string())))
}

fn pointer(mutable: bool, target: TypeExpression) -> TypeExpression {
    TypeExpression::RawPointer { mutable, target: Box::new(target) }
}

fn parameter(name: &str, ty: TypeExpression) -> Parameter {
    Parameter { name: name.to_string(), ty }
}

fn function(inputs: Vec<Parameter>, output: Option<TypeExpression>, c: bool) -> ItemKind {
    ItemKind::Function(FunctionSignature { inputs, output, is_async: false, is_extern_c: c })
}

fn fallible(ok: TypeExpression) -> TypeExpression {
    path("Result", 901, vec![ok, text()])
}

fn demo_items() -> Vec<Item> {
    vec![
        item(50, "SerializableError", ItemKind::Struct(StructShape::Plain(vec![51]))),
        item(51, "message", ItemKind::StructField(text())),
        exported(
            item(
                110,
                "free_standing_function",
                function(vec![parameter("input", prim("i64"))], Some(fallible(prim("i64"))), false),
            ),
            "A function that is not part of an impl block",
        ),
        exported(
            item(
                100,
                "",
                ItemKind::Impl {
                    for_type: path("demo::TestClient", 101, Vec::new()),
                    items: vec![103, 102],
                },
            ),
            "",
        ),
        item(101, "TestClient", ItemKind::Struct(StructShape::Unit)),
        item(
            103,
            "report",
            function(
                vec![parameter("self", receiver())],
                Some(fallible(TypeExpression::Tuple(Vec::new()))),
                false,
            ),
        ),
        item(
            102,
            "client_function",
            function(
                vec![parameter("self", receiver()), parameter("input", text())],
                Some(fallible(text())),
                false,
            ),
        ),
        item(
            120,
            "buffi_free_standing_function",
            function(
                vec![
                    parameter("input", pointer(false, prim("u8"))),
                    parameter("input_size", prim("usize")),
                    parameter("out_ptr", pointer(true, pointer(true, prim("u8")))),
                ],
                Some(prim("usize")),
                true,
            ),
        ),
        item(
            121,
            "get_test_client",
            function(Vec::new(), Some(pointer(true, path("TestClient", 101, Vec::new()))), true),
        ),
    ]
}

fn demo_resolver() -> Resolver {
    Resolver::new(InterfaceDocument {
        name: "demo".to_string(),
        items: demo_items(),
        paths: Vec::new(),
    })
}

fn demo_config() -> Config {
    Config::new(
        "Api".to_string(),
        "demo_api".to_string(),
        "demo".to_string(),
        vec!["demo".to_string()],
    )
}

fn lines(text: &[&str]) -> Vec<String> {
    text.iter().map(|l| l.to_string()).collect()
}

const HEADER: [&str; 4] = ["#pragma once", "", "#include <cstddef>", "#include <limits>"];

const OPENING: [&str; 7] = [
    "#include \"demo_api_api_functions.hpp\"",
    "",
    "#include \"Api.hpp\"",
    "",
    "",
    "namespace Api {",
    "",
];

const FREE_WRAPPER: [&str; 23] = [
    "    // A function that is not part of an impl block",
    "    inline int64_t free_standing_function(const int64_t& input) {",
    "        auto serializer_input = serde::BincodeSerializer();",
    "        serde::Serializable<int64_t>::serialize(input, serializer_input);",
    "        std::vector<uint8_t> input_serialized = std::move(serializer_input).bytes();",
    "        uint8_t* out_ptr = nullptr;",
    "",
    "        size_t res_size = buffi_free_standing_function(input_serialized.data(), input_serialized.size(), &out_ptr);",
    "",
    "        std::vector<uint8_t> serialized_result(out_ptr, out_ptr + res_size);",
    "        Result_i64_SerializableError out = Result_i64_SerializableError::bincodeDeserialize(serialized_result);",
    "        buffi_free_byte_buffer(out_ptr, res_size);",
    "",
    "        if (out.value.index() == 0) { // Ok",
    "            auto ok = std::get<0>(out.value);",
    "            return std::get<0>(ok.value);",
    "        } else { // Err",
    "            auto err = std::get<1>(out.value);",
    "            auto error = std::get<0>(err.value);",
    "            throw error;",
    "        }",
    "    }",
    "",
];

#[test]
fn header_carries_the_configured_lines() {
    let mut config = demo_config();
    assert_eq!(write_function_header(&config), lines(&HEADER));
    config.copyright_header = Some("Copyright (C) by someone".to_string());
    config.generated_by_header = Some("generated".to_string());
    let mut expected = lines(&["// Copyright (C) by someone", "// generated", ""]);
    expected.extend(lines(&HEADER));
    assert_eq!(write_function_header(&config), expected);
    config.copyright_header = None;
    let mut expected = lines(&["// generated", ""]);
    expected.extend(lines(&HEADER));
    assert_eq!(write_function_header(&config), expected);
}

#[test]
fn exported_items_are_told_by_their_marker() {
    let items = demo_items();
    assert!(is_free_standing_impl(&items[2]));
    assert!(!is_relevant_impl(&items[2]));
    assert!(is_relevant_impl(&items[3]));
    assert!(!is_free_standing_impl(&items[3]));
    assert!(!is_free_standing_impl(&items[5]));
    assert!(!is_relevant_impl(&items[0]));
}

#[test]
fn raw_declarations_name_types_by_their_c_names() {
    assert_eq!(to_c_type(&prim("u8")), Some("std::uint8_t".to_string()));
    assert_eq!(to_c_type(&prim("u16")), Some("std::uint16_t".to_string()));
    assert_eq!(to_c_type(&prim("usize")), Some("size_t".to_string()));
    assert_eq!(to_c_type(&prim("bool")), Some("bool".to_string()));
    assert_eq!(to_c_type(&pointer(false, prim("u8"))), Some("const std::uint8_t*".to_string()));
    assert_eq!(
        to_c_type(&pointer(true, pointer(true, prim("u8")))),
        Some("std::uint8_t**".to_string())
    );
    assert_eq!(
        to_c_type(&path("std::ffi::c_char", 1, Vec::new())),
        Some("char".to_string())
    );
    assert_eq!(
        to_c_type(&path("a::Wrapper", 1, vec![prim("i64"), prim("u8")])),
        Some("Wrapper_i64_std::uint8_t".to_string())
    );
    assert_eq!(to_c_type(&receiver()), Some(String::new()));
    assert_eq!(to_c_type(&TypeExpression::FunctionPointer), Some(String::new()));
    assert_eq!(to_c_type(&TypeExpression::Tuple(Vec::new())), None);
    let items = demo_items();
    let sig = match &items[7].kind {
        ItemKind::Function(sig) => sig,
        _ => unreachable!(),
    };
    assert_eq!(
        generate_extern_c_function_def("buffi_free_standing_function", sig),
        Some(
            "extern \"C\" size_t buffi_free_standing_function(const std::uint8_t* input, size_t input_size, std::uint8_t** out_ptr);"
                .to_string()
        )
    );
    let nothing = FunctionSignature {
        inputs: Vec::new(),
        output: None,
        is_async: false,
        is_extern_c: true,
    };
    assert_eq!(
        generate_extern_c_function_def("stop", &nothing),
        Some("extern \"C\" void stop();".to_string())
    );
}

#[test]
fn groups_and_members_are_ordered_by_name() {
    let resolver = demo_resolver();
    let groups = collect_groups(&resolver, "demo").unwrap();
    assert_eq!(groups.len(), 1);
    assert_eq!(groups[0].impl_index, 3);
    let names: Vec<String> = groups[0]
        .members
        .iter()
        .map(|p| resolver.item(*p).name.clone().unwrap())
        .collect();
    assert_eq!(names, vec!["client_function".to_string(), "report".to_string()]);
    let free = collect_free_functions(&resolver);
    assert_eq!(free.len(), 1);
    assert_eq!(resolver.item(free[0]).name, Some("free_standing_function".to_string()));
}

#[test]
fn callable_is_planned_from_its_lowered_types() {
    let resolver = demo_resolver();
    let mut memo = TypeCache::new();
    let items = demo_items();
    let plan = plan_callable(&resolver, &items[2], None, "demo", &mut memo).unwrap();
    assert_eq!(
        plan,
        CallablePlan {
            name: "free_standing_function".to_string(),
            docs: vec!["A function that is not part of an impl block".to_string()],
            output_type: "Result_i64_SerializableError".to_string(),
            return_type: "int64_t".to_string(),
            fallible: true,
            inputs: vec![PlannedInput {
                name: "input".to_string(),
                type_text: "int64_t".to_string(),
                is_receiver: false,
            }],
        }
    );
    assert_eq!(render_callable(&plan, "buffi"), lines(&FREE_WRAPPER));
    let owner = path("demo::TestClient", 101, Vec::new());
    let method = plan_callable(&resolver, &items[5], Some(&owner), "demo", &mut memo).unwrap();
    assert_eq!(method.return_type, "void");
    assert_eq!(method.output_type, "Result_void_SerializableError");
    assert_eq!(
        method.inputs,
        vec![PlannedInput {
            name: "self".to_string(),
            type_text: "TestClient".to_string(),
            is_receiver: true,
        }]
    );
    assert_eq!(
        plan_callable(&resolver, &items[5], None, "demo", &mut memo),
        Err(BuildError::UnsupportedShape)
    );
    assert_eq!(
        plan_callable(&resolver, &items[0], None, "demo", &mut memo),
        Err(BuildError::UnsupportedShape)
    );
}

#[test]
fn wrapper_of_a_plain_return_hands_the_value_on() {
    let plan = CallablePlan {
        name: "count".to_string(),
        docs: Vec::new(),
        output_type: "uint32_t".to_string(),
        return_type: "uint32_t".to_string(),
        fallible: false,
        inputs: Vec::new(),
    };
    assert_eq!(
        render_callable(&plan, "buffi"),
        lines(&[
            "    inline uint32_t count() {",
            "        uint8_t* out_ptr = nullptr;",
            "",
            "        size_t res_size = buffi_count(&out_ptr);",
            "",
            "        std::vector<uint8_t> serialized_result(out_ptr, out_ptr + res_size);",
            "        uint32_t out = uint32_t::bincodeDeserialize(serialized_result);",
            "        buffi_free_byte_buffer(out_ptr, res_size);",
            "",
            "        return out;",
            "    }",
            "",
        ])
    );
}

#[test]
fn bindings_are_emitted_in_three_kinds_of_artifacts() {
    let resolver = demo_resolver();
    let config = demo_config();
    let mut memo = TypeCache::new();
    let artifacts = emit_bindings(&resolver, &config, "buffi", &mut memo).unwrap();
    let names: Vec<&str> = artifacts.iter().map(|a| a.file_name.as_str()).collect();
    assert_eq!(
        names,
        vec![
            "demo_api_api_functions.hpp",
            "demo_api_testclient.hpp",
            "demo_api_free_standing_functions.hpp",
        ]
    );
    let mut declarations = lines(&HEADER);
    declarations.extend(lines(&[
        "#include <cstdint>",
        "",
        "struct TestClient;",
        "",
        "extern \"C\" TestClient* get_test_client();",
        "extern \"C\" size_t buffi_free_standing_function(const std::uint8_t* input, size_t input_size, std::uint8_t** out_ptr);",
    ]));
    assert_eq!(artifacts[0].lines, declarations);
    let mut methods = lines(&HEADER);
    methods.extend(lines(&OPENING));
    methods.extend(lines(&[
        "class TestClientHolder {",
        "    TestClient* inner;",
        "public:",
        "    TestClientHolder(TestClient* ptr) {",
        "        this->inner = ptr;",
        "    }",
        "",
        "    inline std::string client_function(const std::string& input) {",
        "        auto serializer_input = serde::BincodeSerializer();",
        "        serde::Serializable<std::string>::serialize(input, serializer_input);",
        "        std::vector<uint8_t> input_serialized = std::move(serializer_input).bytes();",
        "        uint8_t* out_ptr = nullptr;",
        "",
        "        size_t res_size = buffi_client_function(this->inner, input_serialized.data(), input_serialized.size(), &out_ptr);",
        "",
        "        std::vector<uint8_t> serialized_result(out_ptr, out_ptr + res_size);",
        "        Result_String_SerializableError out = Result_String_SerializableError::bincodeDeserialize(serialized_result);",
        "        buffi_free_byte_buffer(out_ptr, res_size);",
        "",
        "        if (out.value.index() == 0) { // Ok",
        "            auto ok = std::get<0>(out.value);",
        "            return std::get<0>(ok.value);",
        "        } else { // Err",
        "            auto err = std::get<1>(out.value);",
        "            auto error = std::get<0>(err.value);",
        "            throw error;",
        "        }",
        "    }",
        "",
        "    inline void report() {",
        "        uint8_t* out_ptr = nullptr;",
        "",
        "        size_t res_size = buffi_report(this->inner, &out_ptr);",
        "",
        "        std::vector<uint8_t> serialized_result(out_ptr, out_ptr + res_size);",
        "        Result_void_SerializableError out = Result_void_SerializableError::bincodeDeserialize(serialized_result);",
        "        buffi_free_byte_buffer(out_ptr, res_size);",
        "",
        "        if (out.value.index() == 0) { // Ok",
        "            return;",
        "        } else { // Err",
        "            auto err = std::get<1>(out.value);",
        "            auto error = std::get<0>(err.value);",
        "            throw error;",
        "        }",
        "    }",
        "",
        "};",
        "",
        "}  // end of namespace Api",
    ]));
    assert_eq!(artifacts[1].lines, methods);
    let mut free = lines(&HEADER);
    free.extend(lines(&OPENING));
    free.extend(lines(&FREE_WRAPPER));
    free.push(String::new());
    free.push("}  // end of namespace Api".to_string());
    assert_eq!(artifacts[2].lines, free);
    assert!(artifacts[2].content().ends_with("}  // end of namespace Api\n"));
    assert_eq!(artifacts[2].content().lines().count(), artifacts[2].lines.len());
}

#[test]
fn two_passes_over_the_same_documents_emit_the_same() {
    let config = demo_config();
    let first = emit_bindings(&demo_resolver(), &config, "buffi", &mut TypeCache::new()).unwrap();
    let second = emit_bindings(&demo_resolver(), &config, "buffi", &mut TypeCache::new()).unwrap();
    assert_eq!(first, second);
    let mut shuffled = demo_items();
    shuffled.reverse();
    let resolver = Resolver::new(InterfaceDocument {
        name: "demo".to_string(),
        items: shuffled,
        paths: Vec::new(),
    });
    let third = emit_bindings(&resolver, &config, "buffi", &mut TypeCache::new()).unwrap();
    assert_eq!(first, third);
}

#[test]
fn file_prefix_replaces_the_library_name() {
    let mut config = demo_config();
    config.file_prefix = Some("gen".to_string());
    let artifacts = emit_bindings(&demo_resolver(), &config, "buffi", &mut TypeCache::new()).unwrap();
    assert_eq!(artifacts[0].file_name, "gen_api_functions.hpp");
    assert_eq!(artifacts[1].file_name, "gen_testclient.hpp");
    assert_eq!(artifacts[1].lines[4], "#include \"gen_api_functions.hpp\"");
}

#[test]
fn registry_holds_the_containers_of_all_exported_signatures() {
    let resolver = demo_resolver();
    let mut memo = TypeCache::new();
    let registry = generate_type_definitions(&resolver, "demo", &mut memo).unwrap();
    let mut names: Vec<&str> = registry.entries.iter().map(|e| e.name.as_str()).collect();
    names.sort();
    assert_eq!(
        names,
        vec![
            "Result_String_SerializableError",
            "Result_i64_SerializableError",
            "Result_void_SerializableError",
            "SerializableError",
        ]
    );
    assert_eq!(
        registry.get("SerializableError"),
        Some(&ContainerFormat::Struct(vec![NamedFormat {
            name: "message".to_string(),
            value: Format::Str,
        }]))
    );
    assert_eq!(demo_config().type_definitions(&resolver, &mut memo).unwrap().entries.len(), 4);
}

#[test]
fn unresolved_member_fails_the_pass() {
    let mut items = demo_items();
    if let ItemKind::Impl { items: members, .. } = &mut items[3].kind {
        members.push(999);
    }
    let resolver = Resolver::new(InterfaceDocument {
        name: "demo".to_string(),
        items,
        paths: Vec::new(),
    });
    let mut memo = TypeCache::new();
    assert_eq!(
        emit_bindings(&resolver, &demo_config(), "buffi", &mut memo),
        Err(BuildError::UnknownIdentifier)
    );
    assert_eq!(
        generate_type_definitions(&resolver, "demo", &mut TypeCache::new()).err(),
        Some(BuildError::UnknownIdentifier)
    );
}

#[test]
fn comments_are_gathered_for_types_and_their_members() {
    let mut items = demo_items();
    items[0].docs = Some("What went wrong".to_string());
    items[1].docs = Some("The reason".to_string());
    items[4].docs = Some("A client".to_string());
    let resolver = Resolver::new(InterfaceDocument {
        name: "demo".to_string(),
        items,
        paths: Vec::new(),
    });
    let path = |parts: &[&str]| parts.iter().map(|p| p.to_string()).collect::<Vec<_>>();
    assert_eq!(
        collect_comments(&resolver, "Api"),
        vec![
            DocComment {
                path: path(&["Api", "SerializableError"]),
                text: "What went wrong".to_string(),
            },
            DocComment {
                path: path(&["Api", "SerializableError", "message"]),
                text: "The reason".to_string(),
            },
            DocComment { path: path(&["Api", "TestClient"]), text: "A client".to_string() },
        ]
    );
}
