use buffi::abi::{
    after_encoding, after_fallback, expand, generate_exported_function,
    generate_exported_functions_for_impl_block, normalize, AfterEncoding, CallOutcome,
    DefectPayload, ExportedFunction, ExportedItem, ExportedKind, ExportedMethod,
    SerializableError,
};
use buffi::example::{
    call_free_standing_function, free_standing_function, respond, DateTimeHelper,
};

fn add_one(x: i64) -> Result<i64, String> {
    Ok(x + 1)
}

/// An entry point for `add_one` on a safe buffer: what the generated source
/// does, with the decisions of the library.
fn entry(argument: &[u8]) -> Vec<u8> {
    let config = bincode::config::legacy();
    let decoded: Result<(i64, usize), _> = bincode::serde::decode_from_slice(argument, config);
    let (outcome, payload) = match decoded {
        Err(e) => (CallOutcome::ArgumentRejected(e.to_string()), None),
        Ok((x, _)) => match add_one(x) {
            Ok(y) => (CallOutcome::Returned, Some(y)),
            Err(m) => (CallOutcome::BodyFailed(m), None),
        },
    };
    let result: Result<i64, String> = match normalize(outcome) {
        None => Ok(payload.unwrap()),
        Some(e) => Err(e.message),
    };
    let first = bincode::serde::encode_to_vec(&result, config).map_err(|e| e.to_string());
    match after_encoding(first) {
        AfterEncoding::Return(bytes) => bytes,
        AfterEncoding::Fallback(e) => {
            let fallback: Result<i64, String> = Err(e.message);
            after_fallback(
                bincode::serde::encode_to_vec(&fallback, config).map_err(|e| e.to_string()),
            )
        }
    }
}

fn receive(buffer: &[u8]) -> Result<i64, String> {
    let (result, _): (Result<i64, String>, usize) =
        bincode::serde::decode_from_slice(buffer, bincode::config::legacy()).unwrap();
    result
}

#[test]
fn call_across_the_boundary_returns_the_payload() {
    let argument = bincode::serde::encode_to_vec(41i64, bincode::config::legacy()).unwrap();
    assert_eq!(receive(&entry(&argument)), Ok(42));
}

#[test]
fn malformed_buffer_comes_back_as_an_error() {
    let got = receive(&entry(&[1, 2, 3]));
    let message = got.unwrap_err();
    assert!(message.starts_with("Bincode Decode Error: "));
    assert!(message.len() > "Bincode Decode Error: ".len());
}

#[test]
fn entry_point_of_the_example_answers_in_the_wire_format() {
    let argument = bincode::serde::encode_to_vec(41i64, bincode::config::legacy()).unwrap();
    assert_eq!(argument, vec![41, 0, 0, 0, 0, 0, 0, 0]);
    let answer = call_free_standing_function(&argument);
    assert_eq!(answer, vec![0, 0, 0, 0, 41, 0, 0, 0, 0, 0, 0, 0]);
    assert_eq!(receive(&answer), Ok(41));
    let negative = bincode::serde::encode_to_vec(-2i64, bincode::config::legacy()).unwrap();
    assert_eq!(receive(&call_free_standing_function(&negative)), Ok(-2));
    let rejected = receive(&call_free_standing_function(&[7, 7])).unwrap_err();
    assert!(rejected.starts_with("Bincode Decode Error: "));
    assert!(rejected.len() > "Bincode Decode Error: ".len());
    let empty = receive(&call_free_standing_function(&[])).unwrap_err();
    assert!(empty.starts_with("Bincode Decode Error: "));
    let raw = call_free_standing_function(&[]);
    assert_eq!(&raw[..4], &[1, 0, 0, 0]);
    assert_eq!(&raw[4..12], &(empty.len() as u64).to_le_bytes());
    assert_eq!(&raw[12..], empty.as_bytes());
    let long = call_free_standing_function(&[1, 2, 3, 4, 5, 6, 7, 8, 9, 10]);
    assert_eq!(long, vec![0, 0, 0, 0, 1, 2, 3, 4, 5, 6, 7, 8]);
    let least = call_free_standing_function(&i64::MIN.to_le_bytes());
    assert_eq!(receive(&least), Ok(i64::MIN));
}

#[test]
fn every_failure_is_normalized_to_the_error_shape() {
    assert_eq!(normalize(CallOutcome::Returned), None);
    assert_eq!(
        normalize(CallOutcome::NullReceiver),
        Some(SerializableError { message: "This pointer is null".to_string() })
    );
    assert_eq!(
        normalize(CallOutcome::NullOutput),
        Some(SerializableError { message: "Out pointer is null".to_string() })
    );
    assert_eq!(
        normalize(CallOutcome::ArgumentRejected("short".to_string())),
        Some(SerializableError { message: "Bincode Decode Error: short".to_string() })
    );
    assert_eq!(
        normalize(CallOutcome::BodyFailed("no".to_string())),
        Some(SerializableError { message: "no".to_string() })
    );
    assert_eq!(
        normalize(CallOutcome::Defect(DefectPayload::StaticText("boom".to_string()))),
        Some(SerializableError { message: "boom".to_string() })
    );
    assert_eq!(
        normalize(CallOutcome::Defect(DefectPayload::OwnedText("bang".to_string()))),
        Some(SerializableError { message: "bang".to_string() })
    );
    assert_eq!(
        normalize(CallOutcome::Defect(DefectPayload::Unknown)),
        Some(SerializableError { message: String::new() })
    );
}

#[test]
fn error_is_made_from_text_and_from_failures() {
    assert_eq!(
        SerializableError::from("plain".to_string()),
        SerializableError { message: "plain".to_string() }
    );
    assert_eq!(
        SerializableError::from_decode_failure("eof").message,
        "Bincode Decode Error: eof"
    );
    assert_eq!(
        SerializableError::from_encode_failure("too long").message,
        "Bincode Encode Error: too long"
    );
    assert_eq!(SerializableError::from_defect(DefectPayload::Unknown).message, "");
}

#[test]
fn a_buffer_always_comes_back() {
    assert_eq!(after_encoding(Ok(vec![1, 2])), AfterEncoding::Return(vec![1, 2]));
    assert_eq!(
        after_encoding(Err("limit".to_string())),
        AfterEncoding::Fallback(SerializableError {
            message: "Bincode Encode Error: limit".to_string()
        })
    );
    assert_eq!(after_fallback(Ok(vec![9])), vec![9]);
    assert_eq!(after_fallback(Err("again".to_string())), Vec::<u8>::new());
}

#[test]
fn example_api_hands_its_input_back() {
    assert_eq!(free_standing_function(7), Ok(7));
    assert_eq!(free_standing_function(i64::MIN), Ok(i64::MIN));
    let helper = DateTimeHelper { milliseconds_since_unix_epoch: 1_000 };
    assert_eq!(helper.milliseconds_since_unix_epoch, 1_000);
}

fn exported(name: &str, arguments: &[&str], returns: Option<&str>) -> ExportedFunction {
    ExportedFunction {
        name: name.to_string(),
        docs: Vec::new(),
        arguments: arguments.iter().map(|a| a.to_string()).collect(),
        self_type: None,
        exclusive: false,
        is_async: false,
        returns: returns.map(|r| r.to_string()),
    }
}

fn lines(text: &[&str]) -> Vec<String> {
    text.iter().map(|l| l.to_string()).collect()
}

const CLOSING: [&str; 28] = [
    "    }));",
    "    let mut res = match r {",
    "        Ok(o) => o,",
    "        Err(e) => {",
    "            Err(crate::errors::SerializableError::from(e))",
    "        }",
    "    };",
    "    let bytes = match bincode::serialize(&res) {",
    "        Ok(bytes) => bytes,",
    "        Err(e) => {",
    "            res = Err(e.into());",
    "            match bincode::serialize(&res) {",
    "                Ok(bytes) => bytes,",
    "                Err(_e) => {",
    "                    Vec::new()",
    "                }",
    "            }",
    "        }",
    "    };",
    "    if out_ptr.is_null() {",
    "        return 0;",
    "    }",
    "    let bytes = bytes.into_boxed_slice();",
    "    let len = bytes.len();",
    "    let out: &mut *mut u8 = unsafe { &mut *out_ptr };",
    "    *out = Box::into_raw(bytes) as *mut u8;",
    "    len",
    "}",
];

#[test]
fn free_function_gets_an_entry_point() {
    let mut f = exported("free_standing_function", &["input"], Some("Result"));
    f.docs = vec!["/// A function that is not part of an impl block".to_string()];
    let mut expected = lines(&[
        "/// A function that is not part of an impl block",
        "///",
        "/// # Safety",
        "/// Unsafe code is used to check input and output pointers to byte buffers.",
        "#[cfg(not(generated_extern_function_marker))]",
        "#[allow(clippy::manual_unwrap_or_default)]",
        "#[no_mangle]",
        "pub unsafe extern \"C\" fn buffi_free_standing_function(input: *const u8, input_size: usize, out_ptr: *mut *mut u8,) -> usize {",
        "    let r = std::panic::catch_unwind(std::panic::AssertUnwindSafe(|| {",
        "        if out_ptr.is_null() {",
        "            return Err(color_eyre::eyre::eyre!(\"Out pointer is null\").into());",
        "        }",
        "        let slice = if input.is_null() {",
        "            &[]",
        "        } else {",
        "            unsafe { std::slice::from_raw_parts(input, input_size) }",
        "        };",
        "        let input = bincode::deserialize(slice)?;",
        "        free_standing_function(input,).map_err(crate::errors::SerializableError::from)",
    ]);
    expected.extend(lines(&CLOSING));
    assert_eq!(generate_exported_function(&f, "buffi", false), Ok(expected));
}

#[test]
fn suspending_method_runs_on_the_context_of_its_receiver() {
    let mut f = exported("async_function", &["content"], Some("Result"));
    f.self_type = Some("TestClient".to_string());
    f.is_async = true;
    let got = generate_exported_function(&f, "buffi", true).unwrap();
    assert_eq!(got[4], "#[tracing::instrument(skip_all)]");
    assert_eq!(
        got[6],
        "pub unsafe extern \"C\" fn buffi_async_function(this_ptr: *mut TestClient, content: *const u8, content_size: usize, out_ptr: *mut *mut u8,) -> usize {"
    );
    assert_eq!(
        &got[8..13],
        &lines(&[
            "        if this_ptr.is_null() {",
            "            tracing::error!(\"This pointer is null\");",
            "            return Err(color_eyre::eyre::eyre!(\"This pointer is null\").into());",
            "        }",
            "        let this = unsafe { &*this_ptr };",
        ])[..]
    );
    assert!(got.contains(&"            tracing::error!(\"Out pointer is null\");".to_string()));
    let call = got.iter().position(|l| l.contains("runtime")).unwrap();
    assert_eq!(
        &got[call..call + 5],
        &lines(&[
            "        let runtime = std::sync::Arc::clone(&this.runtime);",
            "        let fut = async move {",
            "            this.async_function(content,).await.map_err(crate::errors::SerializableError::from)",
            "        };",
            "        runtime.block_on(fut)",
        ])[..]
    );
    assert!(got.contains(&"            tracing::warn!(%e, \"Serialization error\");".to_string()));
    f.exclusive = true;
    let got = generate_exported_function(&f, "buffi", false).unwrap();
    assert!(got.contains(&"        let this = unsafe { &mut *this_ptr };".to_string()));
}

#[test]
fn function_without_a_result_has_no_entry_point() {
    let f = exported("plain", &[], Some("String"));
    assert_eq!(
        generate_exported_function(&f, "buffi", false),
        Err("API function 'plain' is not returning a 'Result'".to_string())
    );
    let g = exported("nothing", &[], None);
    assert_eq!(
        generate_exported_function(&g, "buffi", false),
        Err("API function 'nothing' is not returning a 'Result'".to_string())
    );
}

#[test]
fn block_exports_its_public_methods_and_gathers_mistakes() {
    let good = ExportedMethod { public: true, function: exported("a", &[], Some("Result")) };
    let hidden = ExportedMethod { public: false, function: exported("b", &[], None) };
    let bad = ExportedMethod { public: true, function: exported("c", &[], None) };
    let worse = ExportedMethod { public: true, function: exported("d", &[], Some("u8")) };
    let ok = generate_exported_functions_for_impl_block(
        &vec![good.clone(), hidden.clone()],
        "buffi",
        false,
    )
    .unwrap();
    assert_eq!(ok, generate_exported_function(&good.function, "buffi", false).unwrap());
    assert_eq!(
        generate_exported_functions_for_impl_block(&vec![good, bad, hidden, worse], "buffi", false),
        Err(vec![
            "API function 'c' is not returning a 'Result'".to_string(),
            "API function 'd' is not returning a 'Result'".to_string(),
        ])
    );
}

#[test]
fn annotation_expands_to_the_item_and_its_entry_points() {
    let f = exported("go", &[], Some("Result"));
    let item = ExportedItem {
        source: "pub fn go() -> Result<(), String> { Ok(()) }".to_string(),
        kind: ExportedKind::Function(f.clone()),
    };
    let head = lines(&[
        "#[cfg(not(generated_extern_impl))]",
        "pub fn go() -> Result<(), String> { Ok(()) }",
    ]);
    assert_eq!(expand(&item, None, false, false), Ok(head.clone()));
    let mut with_exports = head.clone();
    with_exports.extend(generate_exported_function(&f, "buffi", false).unwrap());
    assert_eq!(expand(&item, None, true, false), Ok(with_exports));
    let renamed = expand(&item, Some("ffi".to_string()), true, false).unwrap();
    assert!(renamed[8].starts_with("pub unsafe extern \"C\" fn ffi_go("));
    let other = ExportedItem { source: "struct S;".to_string(), kind: ExportedKind::Other };
    assert_eq!(expand(&other, None, true, false), Err(vec!["Unknown".to_string()]));
    assert_eq!(
        expand(&other, None, false, false),
        Ok(lines(&["#[cfg(not(generated_extern_impl))]", "struct S;"]))
    );
    let block = ExportedItem {
        source: "impl S {}".to_string(),
        kind: ExportedKind::Impl(vec![ExportedMethod {
            public: true,
            function: exported("m", &[], None),
        }]),
    };
    assert_eq!(
        expand(&block, None, true, false),
        Err(vec!["API function 'm' is not returning a 'Result'".to_string()])
    );
}

#[test]
fn entry_point_tests_the_output_slot_before_it_stores() {
    for tracing in [false, true] {
        let mut f = exported("async_function", &["content"], Some("Result"));
        f.self_type = Some("TestClient".to_string());
        f.is_async = true;
        let got = generate_exported_function(&f, "buffi", tracing).unwrap();
        let store = got.iter().position(|l| l.contains("&mut *out_ptr")).unwrap();
        let tests: Vec<usize> = got
            .iter()
            .enumerate()
            .filter(|(_, l)| l.trim() == "if out_ptr.is_null() {")
            .map(|(i, _)| i)
            .collect();
        assert_eq!(tests.len(), 2);
        let call = got.iter().position(|l| l.contains("this.async_function(")).unwrap();
        assert!(tests[0] < call);
        assert!(call < tests[1]);
        assert_eq!(got[tests[1] + 1], "        return 0;");
        assert_eq!(got[tests[1] + 2], "    }");
        assert!(tests[1] + 2 < store);
        assert_eq!(got.iter().filter(|l| l.contains("*out_ptr }")).count(), 1);
    }
}

#[test]
fn every_outcome_of_a_call_is_read_back_by_the_caller() {
    assert_eq!(receive(&respond(CallOutcome::Returned, 42)), Ok(42));
    assert_eq!(receive(&respond(CallOutcome::Returned, i64::MIN)), Ok(i64::MIN));
    assert_eq!(respond(CallOutcome::Returned, 1), vec![0, 0, 0, 0, 1, 0, 0, 0, 0, 0, 0, 0]);
    assert_eq!(
        receive(&respond(CallOutcome::BodyFailed("no such entry".to_string()), 7)),
        Err("no such entry".to_string())
    );
    assert_eq!(
        receive(&respond(
            CallOutcome::Defect(DefectPayload::StaticText("index out of bounds".to_string())),
            0
        )),
        Err("index out of bounds".to_string())
    );
    assert_eq!(
        receive(&respond(CallOutcome::Defect(DefectPayload::OwnedText("größer".to_string())), 0)),
        Err("größer".to_string())
    );
    assert_eq!(
        respond(CallOutcome::Defect(DefectPayload::Unknown), 0),
        vec![1, 0, 0, 0, 0, 0, 0, 0, 0, 0, 0, 0]
    );
    assert_eq!(receive(&respond(CallOutcome::Defect(DefectPayload::Unknown), 0)), Err(String::new()));
    assert_eq!(
        receive(&respond(CallOutcome::NullReceiver, 0)),
        Err("This pointer is null".to_string())
    );
    assert_eq!(
        receive(&respond(CallOutcome::NullOutput, 0)),
        Err("Out pointer is null".to_string())
    );
    assert_eq!(
        receive(&respond(CallOutcome::ArgumentRejected("short".to_string()), 0)),
        Err("Bincode Decode Error: short".to_string())
    );
}
