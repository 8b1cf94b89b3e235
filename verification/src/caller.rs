//! The text of the caller-side wrappers.
//!
//! A wrapper serializes each argument into a buffer of its own, calls the
//! entry point of the boundary, deserializes the buffer that comes back,
//! releases that buffer, and hands on the result: the payload of a success,
//! or the error of a failure as a thrown value.

use crate::text::{joined, join, push_text, same_text, text2, text3, text4, text5, text7, views};
use vstd::prelude::*;

verus! {

/// One parameter of a callable, as the wrapper sees it.
#[derive(Debug, Clone, PartialEq, Eq)]
pub struct PlannedInput {
    pub name: String,
    /// The name of the parameter's type in the caller's language.
    pub type_text: String,
    /// Whether this is the receiver: the instance that a method is called on.
    pub is_receiver: bool,
}

pub struct PlannedInputView {
    pub name: Seq<char>,
    pub type_text: Seq<char>,
    pub is_receiver: bool,
}

impl View for PlannedInput {
    type V = PlannedInputView;

    open spec fn view(&self) -> PlannedInputView {
        PlannedInputView {
            name: self.name@,
            type_text: self.type_text@,
            is_receiver: self.is_receiver,
        }
    }
}

/// What the wrapper of one callable is made from.
#[derive(Debug, Clone, PartialEq, Eq)]
pub struct CallablePlan {
    pub name: String,
    /// The lines of the documentation of the callable.
    pub docs: Vec<String>,
    /// The name of the type that the returned buffer deserializes to.
    pub output_type: String,
    /// The name of the type that the wrapper returns.
    pub return_type: String,
    /// Whether the callable is fallible: it returns the two-variant container.
    pub fallible: bool,
    pub inputs: Vec<PlannedInput>,
}

pub struct CallablePlanView {
    pub name: Seq<char>,
    pub docs: Seq<Seq<char>>,
    pub output_type: Seq<char>,
    pub return_type: Seq<char>,
    pub fallible: bool,
    pub inputs: Seq<PlannedInputView>,
}

/// The views of the inputs of `v`, in order.
pub open spec fn input_views(v: Seq<PlannedInput>) -> Seq<PlannedInputView> {
    Seq::new(v.len(), |i: int| v[i]@)
}

impl View for CallablePlan {
    type V = CallablePlanView;

    open spec fn view(&self) -> CallablePlanView {
        CallablePlanView {
            name: self.name@,
            docs: views(self.docs@),
            output_type: self.output_type@,
            return_type: self.return_type@,
            fallible: self.fallible,
            inputs: input_views(self.inputs@),
        }
    }
}

/// The documentation lines, each as a comment inside a class.
pub open spec fn comment_lines(docs: Seq<Seq<char>>, n: int) -> Seq<Seq<char>>
    decreases n,
{
    if n <= 0 || n > docs.len() {
        Seq::empty()
    } else {
        comment_lines(docs, n - 1).push("    // "@ + docs[n - 1])
    }
}

/// The declaration of one parameter.
pub open spec fn parameter_text(input: PlannedInputView) -> Seq<char> {
    "const "@ + input.type_text + "& "@ + input.name
}

/// The declarations of the first `n` inputs; the receiver is no parameter.
pub open spec fn parameter_texts(inputs: Seq<PlannedInputView>, n: int) -> Seq<Seq<char>>
    decreases n,
{
    if n <= 0 || n > inputs.len() {
        Seq::empty()
    } else if inputs[n - 1].is_receiver {
        parameter_texts(inputs, n - 1)
    } else {
        parameter_texts(inputs, n - 1).push(parameter_text(inputs[n - 1]))
    }
}

/// The line that opens the wrapper.
pub open spec fn signature_line(plan: CallablePlanView) -> Seq<char> {
    "    inline "@ + plan.return_type + " "@ + plan.name + "("@ + joined(
        parameter_texts(plan.inputs, plan.inputs.len() as int),
        ", "@,
    ) + ") {"@
}

/// The lines that serialize the first `n` inputs, each into a buffer of its
/// own; the receiver is not serialized.
pub open spec fn serialization_lines(inputs: Seq<PlannedInputView>, n: int) -> Seq<Seq<char>>
    decreases n,
{
    if n <= 0 || n > inputs.len() {
        Seq::empty()
    } else if inputs[n - 1].is_receiver {
        serialization_lines(inputs, n - 1)
    } else {
        let name = inputs[n - 1].name;
        let ty = inputs[n - 1].type_text;
        serialization_lines(inputs, n - 1).push(
            "        auto serializer_"@ + name + " = serde::BincodeSerializer();"@,
        ).push(
            "        serde::Serializable<"@ + ty + ">::serialize("@ + name + ", serializer_"@
                + name + ");"@,
        ).push(
            "        std::vector<uint8_t> "@ + name + "_serialized = std::move(serializer_"@
                + name + ").bytes();"@,
        )
    }
}

/// What one input hands to the entry point: the receiver its pointer, any
/// other input its buffer and the length of the buffer.
pub open spec fn call_argument(input: PlannedInputView) -> Seq<char> {
    if input.is_receiver {
        "this->inner, "@
    } else {
        input.name + "_serialized.data(), "@ + input.name + "_serialized.size(), "@
    }
}

/// What the first `n` inputs hand to the entry point, in order.
pub open spec fn call_arguments(inputs: Seq<PlannedInputView>, n: int) -> Seq<char>
    decreases n,
{
    if n <= 0 || n > inputs.len() {
        Seq::empty()
    } else {
        call_arguments(inputs, n - 1) + call_argument(inputs[n - 1])
    }
}

/// The line that calls the entry point.
pub open spec fn call_line(plan: CallablePlanView, prefix: Seq<char>) -> Seq<char> {
    "        size_t res_size = "@ + prefix + "_"@ + plan.name + "("@ + call_arguments(
        plan.inputs,
        plan.inputs.len() as int,
    ) + "&out_ptr);"@
}

/// The lines that hand on the result. A fallible callable branches on the
/// variant: a success returns its payload, or nothing where the payload is
/// the empty tuple; a failure throws its error.
pub open spec fn result_lines(plan: CallablePlanView) -> Seq<Seq<char>> {
    if plan.fallible {
        let ok = if plan.return_type == "void"@ {
            seq!["            return;"@]
        } else {
            seq![
                "            auto ok = std::get<0>(out.value);"@,
                "            return std::get<0>(ok.value);"@,
            ]
        };
        seq!["        if (out.value.index() == 0) { // Ok"@] + ok + seq![
            "        } else { // Err"@,
            "            auto err = std::get<1>(out.value);"@,
            "            auto error = std::get<0>(err.value);"@,
            "            throw error;"@,
            "        }"@,
        ]
    } else {
        seq!["        return out;"@]
    }
}

/// The lines between the serialization of the arguments and the result.
pub open spec fn exchange_lines(plan: CallablePlanView, prefix: Seq<char>) -> Seq<Seq<char>> {
    seq![
        "        uint8_t* out_ptr = nullptr;"@,
        Seq::<char>::empty(),
        call_line(plan, prefix),
        Seq::<char>::empty(),
        "        std::vector<uint8_t> serialized_result(out_ptr, out_ptr + res_size);"@,
        "        "@ + plan.output_type + " out = "@ + plan.output_type
            + "::bincodeDeserialize(serialized_result);"@,
        "        "@ + prefix + "_free_byte_buffer(out_ptr, res_size);"@,
        Seq::<char>::empty(),
    ]
}

/// The lines of the wrapper of one callable.
pub open spec fn caller_wrapper(plan: CallablePlanView, prefix: Seq<char>) -> Seq<Seq<char>> {
    comment_lines(plan.docs, plan.docs.len() as int).push(signature_line(plan))
        + serialization_lines(plan.inputs, plan.inputs.len() as int) + exchange_lines(
        plan,
        prefix,
    ) + result_lines(plan) + seq!["    }"@, Seq::<char>::empty()]
}

/// Appends the texts of `more` to `out`.
pub fn append_texts(out: &mut Vec<String>, more: Vec<String>)
    ensures
        views(final(out)@) == views(old(out)@) + views(more@),
{
    let mut more = more;
    let ghost a = out@;
    let ghost b = more@;
    out.append(&mut more);
    assert(views(a + b) =~= views(a) + views(b));
}

/// The documentation lines of `plan`, each as a comment.
fn comments(docs: &Vec<String>) -> (r: Vec<String>)
    ensures
        views(r@) == comment_lines(views(docs@), docs@.len() as int),
{
    let mut out: Vec<String> = Vec::new();
    let mut i: usize = 0;
    assert(views(out@) =~= Seq::empty());
    while i < docs.len()
        invariant
            i <= docs@.len(),
            views(out@) == comment_lines(views(docs@), i as int),
        decreases docs@.len() - i,
    {
        push_text(&mut out, text2("    // ", docs[i].as_str()));
        i += 1;
    }
    out
}

/// The declarations of the parameters of `inputs`.
fn parameters(inputs: &Vec<PlannedInput>) -> (r: Vec<String>)
    ensures
        views(r@) == parameter_texts(input_views(inputs@), inputs@.len() as int),
{
    let mut out: Vec<String> = Vec::new();
    let mut i: usize = 0;
    assert(views(out@) =~= Seq::empty());
    while i < inputs.len()
        invariant
            i <= inputs@.len(),
            views(out@) == parameter_texts(input_views(inputs@), i as int),
        decreases inputs@.len() - i,
    {
        let input = &inputs[i];
        assert(input_views(inputs@)[i as int] == input@);
        if !input.is_receiver {
            push_text(
                &mut out,
                text4("const ", input.type_text.as_str(), "& ", input.name.as_str()),
            );
        }
        i += 1;
    }
    out
}

/// The lines that serialize the arguments of `inputs`.
fn serializations(inputs: &Vec<PlannedInput>) -> (r: Vec<String>)
    ensures
        views(r@) == serialization_lines(input_views(inputs@), inputs@.len() as int),
{
    let mut out: Vec<String> = Vec::new();
    let mut i: usize = 0;
    assert(views(out@) =~= Seq::empty());
    while i < inputs.len()
        invariant
            i <= inputs@.len(),
            views(out@) == serialization_lines(input_views(inputs@), i as int),
        decreases inputs@.len() - i,
    {
        let input = &inputs[i];
        assert(input_views(inputs@)[i as int] == input@);
        if !input.is_receiver {
            let name = input.name.as_str();
            let ty = input.type_text.as_str();
            push_text(
                &mut out,
                text3("        auto serializer_", name, " = serde::BincodeSerializer();"),
            );
            push_text(
                &mut out,
                text7(
                    "        serde::Serializable<",
                    ty,
                    ">::serialize(",
                    name,
                    ", serializer_",
                    name,
                    ");",
                ),
            );
            push_text(
                &mut out,
                text5(
                    "        std::vector<uint8_t> ",
                    name,
                    "_serialized = std::move(serializer_",
                    name,
                    ").bytes();",
                ),
            );
        }
        i += 1;
    }
    out
}

/// What the inputs hand to the entry point.
fn arguments(inputs: &Vec<PlannedInput>) -> (r: String)
    ensures
        r@ == call_arguments(input_views(inputs@), inputs@.len() as int),
{
    let mut out = String::new();
    let mut i: usize = 0;
    while i < inputs.len()
        invariant
            i <= inputs@.len(),
            out@ == call_arguments(input_views(inputs@), i as int),
        decreases inputs@.len() - i,
    {
        let input = &inputs[i];
        assert(input_views(inputs@)[i as int] == input@);
        let ghost before = out@;
        if input.is_receiver {
            out.append("this->inner, ");
        } else {
            let piece = text4(
                input.name.as_str(),
                "_serialized.data(), ",
                input.name.as_str(),
                "_serialized.size(), ",
            );
            out.append(piece.as_str());
        }
        assert(out@ == before + call_argument(input@));
        i += 1;
    }
    out
}

/// The lines that hand on the result of `plan`.
fn results(plan: &CallablePlan) -> (r: Vec<String>)
    ensures
        views(r@) == result_lines(plan@),
{
    let mut out: Vec<String> = Vec::new();
    assert(views(out@) =~= Seq::empty());
    if plan.fallible {
        push_text(&mut out, String::from_str("        if (out.value.index() == 0) { // Ok"));
        if same_text(plan.return_type.as_str(), "void") {
            push_text(&mut out, String::from_str("            return;"));
        } else {
            push_text(&mut out, String::from_str("            auto ok = std::get<0>(out.value);"));
            push_text(&mut out, String::from_str("            return std::get<0>(ok.value);"));
        }
        push_text(&mut out, String::from_str("        } else { // Err"));
        push_text(&mut out, String::from_str("            auto err = std::get<1>(out.value);"));
        push_text(&mut out, String::from_str("            auto error = std::get<0>(err.value);"));
        push_text(&mut out, String::from_str("            throw error;"));
        push_text(&mut out, String::from_str("        }"));
        assert(views(out@) =~= result_lines(plan@));
    } else {
        push_text(&mut out, String::from_str("        return out;"));
        assert(views(out@) =~= result_lines(plan@));
    }
    out
}

/// The lines of the wrapper of the callable that `plan` describes, for an
/// entry point whose name starts with `prefix`.
pub fn render_callable(plan: &CallablePlan, prefix: &str) -> (r: Vec<String>)
    ensures
        views(r@) == caller_wrapper(plan@, prefix@),
{
    let mut out = comments(&plan.docs);
    let params = parameters(&plan.inputs);
    let list = join(&params, ", ");
    push_text(
        &mut out,
        text7(
            "    inline ",
            plan.return_type.as_str(),
            " ",
            plan.name.as_str(),
            "(",
            list.as_str(),
            ") {",
        ),
    );
    append_texts(&mut out, serializations(&plan.inputs));
    let args = arguments(&plan.inputs);
    let mut exchange: Vec<String> = Vec::new();
    assert(views(exchange@) =~= Seq::empty());
    proof {
        reveal_strlit("");
    }
    push_text(&mut exchange, String::from_str("        uint8_t* out_ptr = nullptr;"));
    push_text(&mut exchange, String::new());
    push_text(
        &mut exchange,
        text7(
            "        size_t res_size = ",
            prefix,
            "_",
            plan.name.as_str(),
            "(",
            args.as_str(),
            "&out_ptr);",
        ),
    );
    push_text(&mut exchange, String::new());
    push_text(
        &mut exchange,
        String::from_str(
            "        std::vector<uint8_t> serialized_result(out_ptr, out_ptr + res_size);",
        ),
    );
    push_text(
        &mut exchange,
        text5(
            "        ",
            plan.output_type.as_str(),
            " out = ",
            plan.output_type.as_str(),
            "::bincodeDeserialize(serialized_result);",
        ),
    );
    push_text(&mut exchange, text3("        ", prefix, "_free_byte_buffer(out_ptr, res_size);"));
    push_text(&mut exchange, String::new());
    assert(views(exchange@) =~= exchange_lines(plan@, prefix@));
    append_texts(&mut out, exchange);
    append_texts(&mut out, results(plan));
    let mut close: Vec<String> = Vec::new();
    assert(views(close@) =~= Seq::empty());
    push_text(&mut close, String::from_str("    }"));
    push_text(&mut close, String::new());
    assert(views(close@) =~= seq!["    }"@, Seq::<char>::empty()]);
    append_texts(&mut out, close);
    out
}

} // verus!
