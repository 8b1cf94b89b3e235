//! The callee side of the boundary.
//!
//! This module holds the one error shape that crosses the boundary, the
//! decisions that an entry point takes at run time, and the generator of the
//! source of the entry points.
//!
//! An entry point takes the receiver's pointer, a pointer and a length for
//! each argument, and a slot for the output pointer, and returns the length
//! of the output. It never unwinds and never fails outright: whatever goes
//! wrong inside comes back as a serialized error. Only without a slot for the
//! output pointer there is nowhere to put a buffer: then nothing is stored
//! and the length is 0.

use crate::caller::append_texts;
use crate::text::{push_text, same_text, text2, text3, text5, views};
use vstd::prelude::*;

verus! {

/// The one error shape that crosses the boundary.
#[derive(Debug, Clone, PartialEq, Eq)]
pub struct SerializableError {
    pub message: String,
}

impl From<String> for SerializableError {
    fn from(value: String) -> (r: SerializableError) {
        SerializableError { message: value }
    }
}

impl vstd::std_specs::convert::FromSpecImpl<String> for SerializableError {
    open spec fn obeys_from_spec() -> bool {
        true
    }

    open spec fn from_spec(value: String) -> SerializableError {
        SerializableError { message: value }
    }
}

/// What an intercepted defect carried, as far as it can be told.
#[derive(Debug, Clone, PartialEq, Eq)]
pub enum DefectPayload {
    /// A text that was fixed when the program was built.
    StaticText(String),
    /// A text that was made at run time.
    OwnedText(String),
    /// Anything else.
    Unknown,
}

/// The message of a defect: its text, or the empty message where it carried
/// none.
pub open spec fn defect_message(payload: DefectPayload) -> Seq<char> {
    match payload {
        DefectPayload::StaticText(s) => s@,
        DefectPayload::OwnedText(s) => s@,
        DefectPayload::Unknown => Seq::empty(),
    }
}

impl SerializableError {
    /// The error for an intercepted defect.
    pub fn from_defect(payload: DefectPayload) -> (r: SerializableError)
        ensures
            r.message@ == defect_message(payload),
    {
        let message = match payload {
            DefectPayload::StaticText(s) => s,
            DefectPayload::OwnedText(s) => s,
            DefectPayload::Unknown => String::new(),
        };
        SerializableError { message }
    }

    /// The error for an argument buffer that could not be deserialized;
    /// `description` says why.
    pub fn from_decode_failure(description: &str) -> (r: SerializableError)
        ensures
            r.message@ == "Bincode Decode Error: "@ + description@,
    {
        SerializableError { message: text2("Bincode Decode Error: ", description) }
    }

    /// The error for a result that could not be serialized; `description`
    /// says why.
    pub fn from_encode_failure(description: &str) -> (r: SerializableError)
        ensures
            r.message@ == "Bincode Encode Error: "@ + description@,
    {
        SerializableError { message: text2("Bincode Encode Error: ", description) }
    }
}

/// What happened inside an entry point before its result is serialized.
#[derive(Debug, Clone, PartialEq, Eq)]
pub enum CallOutcome {
    /// The receiver's pointer was null.
    NullReceiver,
    /// The slot for the output pointer was null.
    NullOutput,
    /// An argument buffer could not be deserialized; the text says why.
    ArgumentRejected(String),
    /// The implementation returned an error, with this message.
    BodyFailed(String),
    /// The implementation did not return: a defect was intercepted.
    Defect(DefectPayload),
    /// The implementation returned a payload.
    Returned,
}

/// The message that an outcome is normalized to; a payload has none.
pub open spec fn normalized(outcome: CallOutcome) -> Option<Seq<char>> {
    match outcome {
        CallOutcome::NullReceiver => Some("This pointer is null"@),
        CallOutcome::NullOutput => Some("Out pointer is null"@),
        CallOutcome::ArgumentRejected(d) => Some("Bincode Decode Error: "@ + d@),
        CallOutcome::BodyFailed(m) => Some(m@),
        CallOutcome::Defect(p) => Some(defect_message(p)),
        CallOutcome::Returned => None,
    }
}

/// Normalizes what happened inside an entry point to the one error shape.
/// A payload is no error.
pub fn normalize(outcome: CallOutcome) -> (r: Option<SerializableError>)
    ensures
        match r {
            Some(e) => normalized(outcome) == Some(e.message@),
            None => normalized(outcome) is None,
        },
{
    match outcome {
        CallOutcome::NullReceiver => Some(
            SerializableError { message: String::from_str("This pointer is null") },
        ),
        CallOutcome::NullOutput => Some(
            SerializableError { message: String::from_str("Out pointer is null") },
        ),
        CallOutcome::ArgumentRejected(d) => Some(
            SerializableError::from_decode_failure(d.as_str()),
        ),
        CallOutcome::BodyFailed(m) => Some(SerializableError { message: m }),
        CallOutcome::Defect(p) => Some(SerializableError::from_defect(p)),
        CallOutcome::Returned => None,
    }
}

/// What an entry point does after it has tried to serialize its result.
#[derive(Debug, Clone, PartialEq, Eq)]
pub enum AfterEncoding {
    /// Hand these bytes to the caller.
    Return(Vec<u8>),
    /// Serialize this error in place of the result.
    Fallback(SerializableError),
}

/// What to do after the first attempt to serialize the result: hand the
/// bytes out, or fall back to an error that describes the failure.
pub fn after_encoding(attempt: Result<Vec<u8>, String>) -> (r: AfterEncoding)
    ensures
        match attempt {
            Ok(bytes) => r == AfterEncoding::Return(bytes),
            Err(why) => r matches AfterEncoding::Fallback(e) && e.message@
                == "Bincode Encode Error: "@ + why@,
        },
{
    match attempt {
        Ok(bytes) => AfterEncoding::Return(bytes),
        Err(why) => AfterEncoding::Fallback(SerializableError::from_encode_failure(why.as_str())),
    }
}

/// The buffer to hand out after the attempt to serialize the fallback error:
/// its bytes, or the empty buffer where that failed too.
pub fn after_fallback(attempt: Result<Vec<u8>, String>) -> (r: Vec<u8>)
    ensures
        match attempt {
            Ok(bytes) => r == bytes,
            Err(_) => r@ == Seq::<u8>::empty(),
        },
{
    match attempt {
        Ok(bytes) => bytes,
        Err(_) => Vec::new(),
    }
}

/// One function to export, as the generator sees it.
#[derive(Debug, Clone, PartialEq, Eq)]
pub struct ExportedFunction {
    pub name: String,
    /// The documentation attributes of the function, each as written.
    pub docs: Vec<String>,
    /// The names of the arguments, without the receiver, in order.
    pub arguments: Vec<String>,
    /// The type that the function is a method of, if it is one.
    pub self_type: Option<String>,
    /// Whether the receiver is borrowed exclusively.
    pub exclusive: bool,
    /// Whether the function suspends.
    pub is_async: bool,
    /// The last segment of the path of the return type, where the function
    /// returns a path.
    pub returns: Option<String>,
}

pub struct ExportedFunctionView {
    pub name: Seq<char>,
    pub docs: Seq<Seq<char>>,
    pub arguments: Seq<Seq<char>>,
    pub self_type: Option<Seq<char>>,
    pub exclusive: bool,
    pub is_async: bool,
    pub returns: Option<Seq<char>>,
}

impl View for ExportedFunction {
    type V = ExportedFunctionView;

    open spec fn view(&self) -> ExportedFunctionView {
        ExportedFunctionView {
            name: self.name@,
            docs: views(self.docs@),
            arguments: views(self.arguments@),
            self_type: match self.self_type {
                Some(t) => Some(t@),
                None => None,
            },
            exclusive: self.exclusive,
            is_async: self.is_async,
            returns: match self.returns {
                Some(t) => Some(t@),
                None => None,
            },
        }
    }
}

/// The parameters that the first `n` arguments take in the signature of the
/// entry point: a pointer and a length each.
pub open spec fn buffer_parameters(arguments: Seq<Seq<char>>, n: int) -> Seq<char>
    decreases n,
{
    if n <= 0 || n > arguments.len() {
        Seq::empty()
    } else {
        buffer_parameters(arguments, n - 1) + arguments[n - 1] + ": *const u8, "@
            + arguments[n - 1] + "_size: usize, "@
    }
}

/// The parameter for the receiver, where there is one.
pub open spec fn receiver_parameter(self_type: Option<Seq<char>>) -> Seq<char> {
    match self_type {
        Some(t) => "this_ptr: *mut "@ + t + ", "@,
        None => Seq::empty(),
    }
}

/// The line that opens the entry point.
pub open spec fn entry_signature(f: ExportedFunctionView, prefix: Seq<char>) -> Seq<char> {
    "pub unsafe extern \"C\" fn "@ + prefix + "_"@ + f.name + "("@ + receiver_parameter(
        f.self_type,
    ) + buffer_parameters(f.arguments, f.arguments.len() as int)
        + "out_ptr: *mut *mut u8,) -> usize {"@
}

/// The lines that reject a null pointer named `pointer` with `message`.
pub open spec fn null_check(pointer: Seq<char>, message: Seq<char>, tracing: bool) -> Seq<
    Seq<char>,
> {
    let report = if tracing {
        seq!["            tracing::error!(\""@ + message + "\");"@]
    } else {
        Seq::empty()
    };
    seq!["        if "@ + pointer + ".is_null() {"@] + report + seq![
        "            return Err(color_eyre::eyre::eyre!(\""@ + message + "\").into());"@,
        "        }"@,
    ]
}

/// The lines that check the receiver and borrow it, where there is one.
pub open spec fn receiver_lines(f: ExportedFunctionView, tracing: bool) -> Seq<Seq<char>> {
    match f.self_type {
        Some(_) => null_check("this_ptr"@, "This pointer is null"@, tracing).push(
            if f.exclusive {
                "        let this = unsafe { &mut *this_ptr };"@
            } else {
                "        let this = unsafe { &*this_ptr };"@
            },
        ),
        None => Seq::empty(),
    }
}

/// The lines that deserialize the first `n` arguments, each from its own
/// buffer; a null pointer stands for the empty buffer.
pub open spec fn decode_lines(arguments: Seq<Seq<char>>, n: int) -> Seq<Seq<char>>
    decreases n,
{
    if n <= 0 || n > arguments.len() {
        Seq::empty()
    } else {
        let a = arguments[n - 1];
        decode_lines(arguments, n - 1).push("        let slice = if "@ + a + ".is_null() {"@).push(
            "            &[]"@,
        ).push("        } else {"@).push(
            "            unsafe { std::slice::from_raw_parts("@ + a + ", "@ + a + "_size) }"@,
        ).push("        };"@).push("        let "@ + a + " = bincode::deserialize(slice)?;"@)
    }
}

/// The first `n` arguments as they are handed to the implementation.
pub open spec fn passed_arguments(arguments: Seq<Seq<char>>, n: int) -> Seq<char>
    decreases n,
{
    if n <= 0 || n > arguments.len() {
        Seq::empty()
    } else {
        passed_arguments(arguments, n - 1) + arguments[n - 1] + ","@
    }
}

/// The call of the implementation, with its error normalized.
pub open spec fn call_text(f: ExportedFunctionView) -> Seq<char> {
    let target = match f.self_type {
        Some(_) => "this."@,
        None => Seq::empty(),
    };
    let waited = if f.is_async {
        ".await"@
    } else {
        Seq::empty()
    };
    target + f.name + "("@ + passed_arguments(f.arguments, f.arguments.len() as int) + ")"@
        + waited + ".map_err(crate::errors::SerializableError::from)"@
}

/// The lines that call the implementation. A suspending implementation runs
/// to completion on the execution context of the receiver.
pub open spec fn call_lines(f: ExportedFunctionView) -> Seq<Seq<char>> {
    if f.is_async {
        seq![
            "        let runtime = std::sync::Arc::clone(&this.runtime);"@,
            "        let fut = async move {"@,
            "            "@ + call_text(f),
            "        };"@,
            "        runtime.block_on(fut)"@,
        ]
    } else {
        seq!["        "@ + call_text(f)]
    }
}

/// The lines that turn the outcome into the returned buffer: a defect
/// becomes an error, the result is serialized, and where that fails an error
/// that says so is, or else the buffer is empty. The buffer is stored through
/// the output slot only where there is one: with a null slot the entry point
/// stores nothing and returns the length 0.
pub open spec fn closing_lines(tracing: bool) -> Seq<Seq<char>> {
    let on_defect = if tracing {
        seq!["            tracing::error!(\"Error\");"@]
    } else {
        Seq::empty()
    };
    let on_first = if tracing {
        seq!["            tracing::warn!(%e, \"Serialization error\");"@]
    } else {
        Seq::empty()
    };
    let on_second = if tracing {
        seq!["                    tracing::error!(%_e, \"Serialization error\");"@]
    } else {
        Seq::empty()
    };
    seq!["    }));"@, "    let mut res = match r {"@, "        Ok(o) => o,"@, "        Err(e) => {"@]
        + on_defect + seq![
        "            Err(crate::errors::SerializableError::from(e))"@,
        "        }"@,
        "    };"@,
        "    let bytes = match bincode::serialize(&res) {"@,
        "        Ok(bytes) => bytes,"@,
        "        Err(e) => {"@,
    ] + on_first + seq![
        "            res = Err(e.into());"@,
        "            match bincode::serialize(&res) {"@,
        "                Ok(bytes) => bytes,"@,
        "                Err(_e) => {"@,
    ] + on_second + seq![
        "                    Vec::new()"@,
        "                }"@,
        "            }"@,
        "        }"@,
        "    };"@,
        "    if out_ptr.is_null() {"@,
        "        return 0;"@,
        "    }"@,
        "    let bytes = bytes.into_boxed_slice();"@,
        "    let len = bytes.len();"@,
        "    let out: &mut *mut u8 = unsafe { &mut *out_ptr };"@,
        "    *out = Box::into_raw(bytes) as *mut u8;"@,
        "    len"@,
        "}"@,
    ]
}

/// The lines above the signature of the entry point.
pub open spec fn heading_lines(f: ExportedFunctionView, tracing: bool) -> Seq<Seq<char>> {
    f.docs + seq![
        "///"@,
        "/// # Safety"@,
        "/// Unsafe code is used to check input and output pointers to byte buffers."@,
        "#[cfg(not(generated_extern_function_marker))]"@,
        if tracing {
            "#[tracing::instrument(skip_all)]"@
        } else {
            "#[allow(clippy::manual_unwrap_or_default)]"@
        },
        "#[no_mangle]"@,
    ]
}

/// The message for a function that does not return a `Result`.
pub open spec fn not_fallible(name: Seq<char>) -> Seq<char> {
    "API function '"@ + name + "' is not returning a 'Result'"@
}

/// The source of the entry point of `f`, line by line; the name of the entry
/// point is `prefix`, `_` and the name of the function. A function that does
/// not return a `Result` has no entry point.
pub open spec fn entry_point_source(f: ExportedFunctionView, prefix: Seq<char>, tracing: bool) -> Result<
    Seq<Seq<char>>,
    Seq<char>,
> {
    if f.returns != Some("Result"@) {
        Err(not_fallible(f.name))
    } else {
        Ok(
            heading_lines(f, tracing).push(entry_signature(f, prefix)).push(
                "    let r = std::panic::catch_unwind(std::panic::AssertUnwindSafe(|| {"@,
            ) + receiver_lines(f, tracing) + null_check(
                "out_ptr"@,
                "Out pointer is null"@,
                tracing,
            ) + decode_lines(f.arguments, f.arguments.len() as int) + call_lines(f)
                + closing_lines(tracing),
        )
    }
}

/// The lines that reject a null pointer named `pointer` with `message`.
fn write_null_check(pointer: &str, message: &str, tracing: bool) -> (r: Vec<String>)
    ensures
        views(r@) == null_check(pointer@, message@, tracing),
{
    let mut out: Vec<String> = Vec::new();
    assert(views(out@) =~= Seq::empty());
    push_text(&mut out, text3("        if ", pointer, ".is_null() {"));
    if tracing {
        push_text(&mut out, text3("            tracing::error!(\"", message, "\");"));
    }
    push_text(
        &mut out,
        text3("            return Err(color_eyre::eyre::eyre!(\"", message, "\").into());"),
    );
    push_text(&mut out, String::from_str("        }"));
    assert(views(out@) =~= null_check(pointer@, message@, tracing));
    out
}

/// The lines that turn the outcome into the returned buffer.
fn write_closing(tracing: bool) -> (r: Vec<String>)
    ensures
        views(r@) == closing_lines(tracing),
{
    let mut out: Vec<String> = Vec::new();
    assert(views(out@) =~= Seq::empty());
    push_text(&mut out, String::from_str("    }));"));
    push_text(&mut out, String::from_str("    let mut res = match r {"));
    push_text(&mut out, String::from_str("        Ok(o) => o,"));
    push_text(&mut out, String::from_str("        Err(e) => {"));
    if tracing {
        push_text(&mut out, String::from_str("            tracing::error!(\"Error\");"));
    }
    push_text(
        &mut out,
        String::from_str("            Err(crate::errors::SerializableError::from(e))"),
    );
    push_text(&mut out, String::from_str("        }"));
    push_text(&mut out, String::from_str("    };"));
    push_text(&mut out, String::from_str("    let bytes = match bincode::serialize(&res) {"));
    push_text(&mut out, String::from_str("        Ok(bytes) => bytes,"));
    push_text(&mut out, String::from_str("        Err(e) => {"));
    if tracing {
        push_text(
            &mut out,
            String::from_str("            tracing::warn!(%e, \"Serialization error\");"),
        );
    }
    push_text(&mut out, String::from_str("            res = Err(e.into());"));
    push_text(&mut out, String::from_str("            match bincode::serialize(&res) {"));
    push_text(&mut out, String::from_str("                Ok(bytes) => bytes,"));
    push_text(&mut out, String::from_str("                Err(_e) => {"));
    if tracing {
        push_text(
            &mut out,
            String::from_str("                    tracing::error!(%_e, \"Serialization error\");"),
        );
    }
    push_text(&mut out, String::from_str("                    Vec::new()"));
    push_text(&mut out, String::from_str("                }"));
    push_text(&mut out, String::from_str("            }"));
    push_text(&mut out, String::from_str("        }"));
    push_text(&mut out, String::from_str("    };"));
    push_text(&mut out, String::from_str("    if out_ptr.is_null() {"));
    push_text(&mut out, String::from_str("        return 0;"));
    push_text(&mut out, String::from_str("    }"));
    push_text(&mut out, String::from_str("    let bytes = bytes.into_boxed_slice();"));
    push_text(&mut out, String::from_str("    let len = bytes.len();"));
    push_text(
        &mut out,
        String::from_str("    let out: &mut *mut u8 = unsafe { &mut *out_ptr };"),
    );
    push_text(&mut out, String::from_str("    *out = Box::into_raw(bytes) as *mut u8;"));
    push_text(&mut out, String::from_str("    len"));
    push_text(&mut out, String::from_str("}"));
    assert(views(out@) =~= closing_lines(tracing));
    out
}

/// A copy of the texts of `v`.
fn copy_texts(v: &Vec<String>) -> (r: Vec<String>)
    ensures
        views(r@) == views(v@),
{
    let mut out: Vec<String> = Vec::new();
    let mut i: usize = 0;
    while i < v.len()
        invariant
            i <= v@.len(),
            out@.len() == i,
            forall|j: int| 0 <= j < i ==> out@[j]@ == v@[j]@,
        decreases v@.len() - i,
    {
        out.push(v[i].clone());
        i += 1;
    }
    assert(views(out@) =~= views(v@));
    out
}

/// The source of the entry point of `f`, line by line.
pub fn generate_exported_function(f: &ExportedFunction, prefix: &str, tracing: bool) -> (r: Result<
    Vec<String>,
    String,
>)
    ensures
        match r {
            Ok(lines) => entry_point_source(f@, prefix@, tracing) == Ok::<
                Seq<Seq<char>>,
                Seq<char>,
            >(views(lines@)),
            Err(e) => entry_point_source(f@, prefix@, tracing) == Err::<Seq<Seq<char>>, Seq<char>>(
                e@,
            ),
        },
{
    let fallible = match &f.returns {
        Some(t) => same_text(t.as_str(), "Result"),
        None => false,
    };
    if !fallible {
        return Err(text3("API function '", f.name.as_str(), "' is not returning a 'Result'"));
    }
    let mut out = copy_texts(&f.docs);
    let mut heading: Vec<String> = Vec::new();
    assert(views(heading@) =~= Seq::empty());
    push_text(&mut heading, String::from_str("///"));
    push_text(&mut heading, String::from_str("/// # Safety"));
    push_text(
        &mut heading,
        String::from_str(
            "/// Unsafe code is used to check input and output pointers to byte buffers.",
        ),
    );
    push_text(&mut heading, String::from_str("#[cfg(not(generated_extern_function_marker))]"));
    if tracing {
        push_text(&mut heading, String::from_str("#[tracing::instrument(skip_all)]"));
    } else {
        push_text(&mut heading, String::from_str("#[allow(clippy::manual_unwrap_or_default)]"));
    }
    push_text(&mut heading, String::from_str("#[no_mangle]"));
    append_texts(&mut out, heading);
    assert(views(out@) =~= heading_lines(f@, tracing));
    let receiver = match &f.self_type {
        Some(t) => text3("this_ptr: *mut ", t.as_str(), ", "),
        None => String::new(),
    };
    let mut buffers = String::new();
    let mut passed = String::new();
    let mut decode: Vec<String> = Vec::new();
    let mut i: usize = 0;
    assert(views(decode@) =~= Seq::empty());
    while i < f.arguments.len()
        invariant
            i <= f.arguments@.len(),
            buffers@ == buffer_parameters(views(f.arguments@), i as int),
            passed@ == passed_arguments(views(f.arguments@), i as int),
            views(decode@) == decode_lines(views(f.arguments@), i as int),
        decreases f.arguments@.len() - i,
    {
        let a = f.arguments[i].as_str();
        buffers.append(a);
        buffers.append(": *const u8, ");
        buffers.append(a);
        buffers.append("_size: usize, ");
        passed.append(a);
        passed.append(",");
        push_text(&mut decode, text3("        let slice = if ", a, ".is_null() {"));
        push_text(&mut decode, String::from_str("            &[]"));
        push_text(&mut decode, String::from_str("        } else {"));
        push_text(
            &mut decode,
            text5("            unsafe { std::slice::from_raw_parts(", a, ", ", a, "_size) }"),
        );
        push_text(&mut decode, String::from_str("        };"));
        push_text(&mut decode, text3("        let ", a, " = bincode::deserialize(slice)?;"));
        i += 1;
    }
    let mut signature = text5("pub unsafe extern \"C\" fn ", prefix, "_", f.name.as_str(), "(");
    signature.append(receiver.as_str());
    signature.append(buffers.as_str());
    signature.append("out_ptr: *mut *mut u8,) -> usize {");
    push_text(&mut out, signature);
    push_text(
        &mut out,
        String::from_str("    let r = std::panic::catch_unwind(std::panic::AssertUnwindSafe(|| {"),
    );
    match &f.self_type {
        Some(_) => {
            let mut lines = write_null_check("this_ptr", "This pointer is null", tracing);
            if f.exclusive {
                push_text(&mut lines, String::from_str("        let this = unsafe { &mut *this_ptr };"));
            } else {
                push_text(&mut lines, String::from_str("        let this = unsafe { &*this_ptr };"));
            }
            append_texts(&mut out, lines);
        },
        None => {
            assert(views(out@) + Seq::<Seq<char>>::empty() =~= views(out@));
        },
    }
    append_texts(&mut out, write_null_check("out_ptr", "Out pointer is null", tracing));
    append_texts(&mut out, decode);
    let mut call = match &f.self_type {
        Some(_) => String::from_str("this."),
        None => String::new(),
    };
    call.append(f.name.as_str());
    call.append("(");
    call.append(passed.as_str());
    call.append(")");
    if f.is_async {
        call.append(".await");
    } else {
        assert(call@ + Seq::<char>::empty() =~= call@);
    }
    call.append(".map_err(crate::errors::SerializableError::from)");
    assert(call@ == call_text(f@));
    let mut calling: Vec<String> = Vec::new();
    assert(views(calling@) =~= Seq::empty());
    if f.is_async {
        push_text(
            &mut calling,
            String::from_str("        let runtime = std::sync::Arc::clone(&this.runtime);"),
        );
        push_text(&mut calling, String::from_str("        let fut = async move {"));
        push_text(&mut calling, text2("            ", call.as_str()));
        push_text(&mut calling, String::from_str("        };"));
        push_text(&mut calling, String::from_str("        runtime.block_on(fut)"));
    } else {
        push_text(&mut calling, text2("        ", call.as_str()));
    }
    assert(views(calling@) =~= call_lines(f@));
    append_texts(&mut out, calling);
    append_texts(&mut out, write_closing(tracing));
    Ok(out)
}

/// One method of an implementation block.
#[derive(Debug, Clone, PartialEq, Eq)]
pub struct ExportedMethod {
    /// Whether the method is public.
    pub public: bool,
    pub function: ExportedFunction,
}

/// The sources of the entry points of the public methods among the first `n`.
pub open spec fn block_sources(
    methods: Seq<ExportedMethod>,
    prefix: Seq<char>,
    tracing: bool,
    n: int,
) -> Seq<Seq<char>>
    decreases n,
{
    if n <= 0 || n > methods.len() {
        Seq::empty()
    } else if methods[n - 1].public {
        match entry_point_source(methods[n - 1].function@, prefix, tracing) {
            Ok(lines) => block_sources(methods, prefix, tracing, n - 1) + lines,
            Err(_) => block_sources(methods, prefix, tracing, n - 1),
        }
    } else {
        block_sources(methods, prefix, tracing, n - 1)
    }
}

/// The mistakes of the public methods among the first `n`, in order.
pub open spec fn block_errors(
    methods: Seq<ExportedMethod>,
    prefix: Seq<char>,
    tracing: bool,
    n: int,
) -> Seq<Seq<char>>
    decreases n,
{
    if n <= 0 || n > methods.len() {
        Seq::empty()
    } else if methods[n - 1].public {
        match entry_point_source(methods[n - 1].function@, prefix, tracing) {
            Ok(_) => block_errors(methods, prefix, tracing, n - 1),
            Err(e) => block_errors(methods, prefix, tracing, n - 1).push(e),
        }
    } else {
        block_errors(methods, prefix, tracing, n - 1)
    }
}

/// The sources of the entry points of the public methods of a block. Where
/// a method is mistaken, all mistakes come back in place of the sources.
pub open spec fn block_source(methods: Seq<ExportedMethod>, prefix: Seq<char>, tracing: bool) -> Result<
    Seq<Seq<char>>,
    Seq<Seq<char>>,
> {
    let errors = block_errors(methods, prefix, tracing, methods.len() as int);
    if errors.len() > 0 {
        Err(errors)
    } else {
        Ok(block_sources(methods, prefix, tracing, methods.len() as int))
    }
}

/// Whether `got` is the outcome `want` of generating sources.
pub open spec fn is_source_outcome(
    got: Result<Vec<String>, Vec<String>>,
    want: Result<Seq<Seq<char>>, Seq<Seq<char>>>,
) -> bool {
    match got {
        Ok(lines) => want == Ok::<Seq<Seq<char>>, Seq<Seq<char>>>(views(lines@)),
        Err(errors) => want == Err::<Seq<Seq<char>>, Seq<Seq<char>>>(views(errors@)),
    }
}

/// The sources of the entry points of the public methods of a block.
pub fn generate_exported_functions_for_impl_block(
    methods: &Vec<ExportedMethod>,
    prefix: &str,
    tracing: bool,
) -> (r: Result<Vec<String>, Vec<String>>)
    ensures
        is_source_outcome(r, block_source(methods@, prefix@, tracing)),
{
    let mut exports: Vec<String> = Vec::new();
    let mut errors: Vec<String> = Vec::new();
    let mut n: usize = 0;
    assert(views(exports@) =~= Seq::empty());
    assert(views(errors@) =~= Seq::empty());
    while n < methods.len()
        invariant
            n <= methods@.len(),
            views(exports@) == block_sources(methods@, prefix@, tracing, n as int),
            views(errors@) == block_errors(methods@, prefix@, tracing, n as int),
        decreases methods@.len() - n,
    {
        if methods[n].public {
            match generate_exported_function(&methods[n].function, prefix, tracing) {
                Ok(lines) => {
                    append_texts(&mut exports, lines);
                },
                Err(e) => {
                    push_text(&mut errors, e);
                },
            }
        }
        n += 1;
    }
    if errors.len() > 0 {
        Err(errors)
    } else {
        Ok(exports)
    }
}

/// What an annotated item is.
#[derive(Debug, Clone, PartialEq, Eq)]
pub enum ExportedKind {
    /// An implementation block with these methods.
    Impl(Vec<ExportedMethod>),
    /// A function outside of any block.
    Function(ExportedFunction),
    /// Anything else.
    Other,
}

/// An item that is annotated for export.
#[derive(Debug, Clone, PartialEq, Eq)]
pub struct ExportedItem {
    /// The source of the item, as written.
    pub source: String,
    pub kind: ExportedKind,
}

/// The prefix of the names of the entry points where none is given.
pub open spec fn default_prefix() -> Seq<char> {
    "buffi"@
}

/// The sources of the entry points of an item.
pub open spec fn item_exports(item: ExportedItem, prefix: Seq<char>, tracing: bool) -> Result<
    Seq<Seq<char>>,
    Seq<Seq<char>>,
> {
    match item.kind {
        ExportedKind::Impl(methods) => block_source(methods@, prefix, tracing),
        ExportedKind::Function(f) => match entry_point_source(f@, prefix, tracing) {
            Ok(lines) => Ok(lines),
            Err(e) => Err(seq![e]),
        },
        ExportedKind::Other => Err(seq!["Unknown"@]),
    }
}

/// What the annotation of an item expands to: the item itself, kept out of
/// builds that generate the entry points, then its entry points where
/// `with_c_api` is set.
pub open spec fn expansion(
    item: ExportedItem,
    prefix: Option<Seq<char>>,
    with_c_api: bool,
    tracing: bool,
) -> Result<Seq<Seq<char>>, Seq<Seq<char>>> {
    let chosen = match prefix {
        Some(p) => p,
        None => default_prefix(),
    };
    let head = seq!["#[cfg(not(generated_extern_impl))]"@, item.source@];
    if with_c_api {
        match item_exports(item, chosen, tracing) {
            Ok(lines) => Ok(head + lines),
            Err(e) => Err(e),
        }
    } else {
        Ok(head)
    }
}

/// The view of an optional prefix.
pub open spec fn prefix_view(prefix: Option<String>) -> Option<Seq<char>> {
    match prefix {
        Some(p) => Some(p@),
        None => None,
    }
}

/// What the annotation of `item` expands to, line by line.
pub fn expand(item: &ExportedItem, prefix: Option<String>, with_c_api: bool, tracing: bool) -> (r:
    Result<Vec<String>, Vec<String>>)
    ensures
        is_source_outcome(r, expansion(*item, prefix_view(prefix), with_c_api, tracing)),
{
    let chosen = match prefix {
        Some(p) => p,
        None => String::from_str("buffi"),
    };
    let mut out: Vec<String> = Vec::new();
    assert(views(out@) =~= Seq::empty());
    push_text(&mut out, String::from_str("#[cfg(not(generated_extern_impl))]"));
    push_text(&mut out, item.source.clone());
    assert(views(out@) =~= seq!["#[cfg(not(generated_extern_impl))]"@, item.source@]);
    if !with_c_api {
        return Ok(out);
    }
    let exports = match &item.kind {
        ExportedKind::Impl(methods) => generate_exported_functions_for_impl_block(
            methods,
            chosen.as_str(),
            tracing,
        ),
        ExportedKind::Function(f) => match generate_exported_function(
            f,
            chosen.as_str(),
            tracing,
        ) {
            Ok(lines) => Ok(lines),
            Err(e) => {
                let mut errors: Vec<String> = Vec::new();
                assert(views(errors@) =~= Seq::empty());
                push_text(&mut errors, e);
                assert(views(errors@) =~= seq![e@]);
                Err(errors)
            },
        },
        ExportedKind::Other => {
            let mut errors: Vec<String> = Vec::new();
            assert(views(errors@) =~= Seq::empty());
            push_text(&mut errors, String::from_str("Unknown"));
            assert(views(errors@) =~= seq!["Unknown"@]);
            Err(errors)
        },
    };
    match exports {
        Ok(lines) => {
            append_texts(&mut out, lines);
            Ok(out)
        },
        Err(e) => Err(e),
    }
}

} // verus!
