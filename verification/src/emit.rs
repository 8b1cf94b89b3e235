//! The caller emitter: from the exported callables of the primary document
//! to the artifacts of the caller's side.
//!
//! There is one artifact with the raw declarations of the entry points, one
//! for each type with methods, and one for the functions outside of any
//! block. What stands in them is ordered by name.

use crate::cache::TypeCache;
use crate::caller::{
    append_texts, caller_wrapper, render_callable, CallablePlan, CallablePlanView, PlannedInput,
    PlannedInputView,
};
use crate::config::Config;
use crate::document::{FunctionSignature, Item, ItemKind, Parameter};
use crate::error::{BuildError, BuildErrorView};
use crate::exports::{
    arranged, collect_free_functions, collect_groups, exported_functions, exported_groups,
    group_name, group_views, impl_type, select_items, selected, valid_groups, valid_places,
    GroupView, Selection,
};
use crate::format::caller_type_name;
use crate::lower::{lower_type, DEPTH_LIMIT};
use crate::lowering::{done, failed, item_name, lowered, Memo, Threaded};
use crate::order::{indices, ordered, sort_order, within};
use crate::resolver::{place_pairs, Place, Resolver};
use crate::text::{
    ascii_lowercase, join, joined, last_segment, lines, lines_of, lowered as lower_case,
    name_without_path, push_text, same_text, text2, text3, text4, text5, text7, views,
};
use crate::types::{lemma_models, models, TypeExpression, TypeView};
use vstd::prelude::*;

verus! {

/// One generated file: its name and its lines.
#[derive(Debug, Clone, PartialEq, Eq)]
pub struct Artifact {
    pub file_name: String,
    pub lines: Vec<String>,
}

pub struct ArtifactView {
    pub file_name: Seq<char>,
    pub lines: Seq<Seq<char>>,
}

impl View for Artifact {
    type V = ArtifactView;

    open spec fn view(&self) -> ArtifactView {
        ArtifactView { file_name: self.file_name@, lines: views(self.lines@) }
    }
}

/// The views of the artifacts of `v`, in order.
pub open spec fn artifact_views(v: Seq<Artifact>) -> Seq<ArtifactView> {
    Seq::new(v.len(), |i: int| v[i]@)
}

/// The text of an artifact: each line followed by a line feed.
pub open spec fn content_of(lines: Seq<Seq<char>>, n: int) -> Seq<char>
    decreases n,
{
    if n <= 0 || n > lines.len() {
        Seq::empty()
    } else {
        content_of(lines, n - 1) + lines[n - 1] + "\n"@
    }
}

impl Artifact {
    /// The text of this artifact: each line followed by a line feed.
    pub fn content(&self) -> (r: String)
        ensures
            r@ == content_of(views(self.lines@), self.lines@.len() as int),
    {
        let mut out = String::new();
        let mut i: usize = 0;
        while i < self.lines.len()
            invariant
                i <= self.lines@.len(),
                out@ == content_of(views(self.lines@), i as int),
            decreases self.lines@.len() - i,
        {
            out.append(self.lines[i].as_str());
            out.append("\n");
            i += 1;
        }
        out
    }
}

/// The name, in the caller's language, of the type that `ty` lowers to.
pub open spec fn planned_type(r: Resolver, ty: TypeView, origin: Seq<char>, memo: Memo) -> Threaded<
    Seq<char>,
> {
    let o = lowered(r, ty, Seq::empty(), origin, memo, DEPTH_LIMIT as nat);
    match o.result {
        Err(e) => failed(e, o.memo),
        Ok(seq) => if seq.len() == 0 {
            failed(BuildErrorView::UnsupportedShape, o.memo)
        } else {
            match caller_type_name(seq.last().format) {
                Some(n) => done(n, o.memo),
                None => failed(BuildErrorView::UnsupportedShape, o.memo),
            }
        },
    }
}

/// The name of a path without the path; an expression that is no path has
/// none.
pub open spec fn path_base(t: TypeView) -> Option<Seq<char>> {
    match t {
        TypeView::NamedPath { name, id, args } => Some(last_segment(name)),
        _ => None,
    }
}

/// Whether a callable with this return type is fallible.
pub open spec fn is_fallible(t: TypeView) -> bool {
    path_base(t) == Some("Result"@)
}

/// The first `n` inputs of a callable, as the wrapper sees them. The input
/// named `self` is the receiver, whose type is named by `receiver`; any other
/// input is lowered.
pub open spec fn planned_inputs(
    r: Resolver,
    inputs: Seq<Parameter>,
    receiver: Option<TypeView>,
    origin: Seq<char>,
    memo: Memo,
    n: int,
) -> Threaded<Seq<PlannedInputView>>
    decreases n,
{
    if n <= 0 || n > inputs.len() {
        done(Seq::empty(), memo)
    } else {
        let before = planned_inputs(r, inputs, receiver, origin, memo, n - 1);
        match before.result {
            Err(e) => before,
            Ok(acc) => {
                let p = inputs[n - 1];
                if p.name@ == "self"@ {
                    match receiver {
                        Some(ty) => match path_base(ty) {
                            Some(t) => done(
                                acc.push(
                                    PlannedInputView {
                                        name: p.name@,
                                        type_text: t,
                                        is_receiver: true,
                                    },
                                ),
                                before.memo,
                            ),
                            None => failed(BuildErrorView::UnsupportedShape, before.memo),
                        },
                        None => failed(BuildErrorView::UnsupportedShape, before.memo),
                    }
                } else {
                    let t = planned_type(r, p.ty@, origin, before.memo);
                    match t.result {
                        Err(e) => failed(e, t.memo),
                        Ok(name) => done(
                            acc.push(
                                PlannedInputView {
                                    name: p.name@,
                                    type_text: name,
                                    is_receiver: false,
                                },
                            ),
                            t.memo,
                        ),
                    }
                }
            },
        }
    }
}

/// The name of the type that the wrapper returns: the payload of a success
/// for a fallible callable, text for a callable that returns text, else the
/// type that the buffer deserializes to.
pub open spec fn planned_return(
    r: Resolver,
    output: TypeView,
    output_text: Seq<char>,
    origin: Seq<char>,
    memo: Memo,
) -> Threaded<Seq<char>> {
    if is_fallible(output) {
        let args = output->NamedPath_args;
        if args.len() == 0 {
            failed(BuildErrorView::UnsupportedShape, memo)
        } else {
            planned_type(r, args[0], origin, memo)
        }
    } else if path_base(output) == Some("String"@) {
        done("std::string"@, memo)
    } else {
        done(output_text, memo)
    }
}

/// The lines of the documentation of an item.
pub open spec fn doc_lines(item: Item) -> Seq<Seq<char>> {
    match item.docs {
        Some(d) => lines(d@),
        None => Seq::empty(),
    }
}

/// What the wrapper of the callable `item` is made from. The return type is
/// lowered first, then the inputs in order, then the payload of a fallible
/// return.
pub open spec fn planned(
    r: Resolver,
    item: Item,
    receiver: Option<TypeView>,
    origin: Seq<char>,
    memo: Memo,
) -> Threaded<CallablePlanView> {
    match item.kind {
        ItemKind::Function(sig) => match sig.output {
            None => failed(BuildErrorView::UnsupportedShape, memo),
            Some(out) => {
                let o = planned_type(r, out@, origin, memo);
                match o.result {
                    Err(e) => failed(e, o.memo),
                    Ok(output_text) => {
                        let ins = planned_inputs(
                            r,
                            sig.inputs@,
                            receiver,
                            origin,
                            o.memo,
                            sig.inputs@.len() as int,
                        );
                        match ins.result {
                            Err(e) => failed(e, ins.memo),
                            Ok(inputs) => {
                                let ret = planned_return(r, out@, output_text, origin, ins.memo);
                                match ret.result {
                                    Err(e) => failed(e, ret.memo),
                                    Ok(return_text) => done(
                                        CallablePlanView {
                                            name: item_name(item),
                                            docs: doc_lines(item),
                                            output_type: output_text,
                                            return_type: return_text,
                                            fallible: is_fallible(out@),
                                            inputs,
                                        },
                                        ret.memo,
                                    ),
                                }
                            },
                        }
                    },
                }
            },
        },
        _ => failed(BuildErrorView::UnsupportedShape, memo),
    }
}

/// Whether `got` is the outcome `want` of naming a type.
pub open spec fn is_text_outcome(
    got: Result<String, BuildError>,
    want: Result<Seq<char>, BuildErrorView>,
) -> bool {
    match got {
        Ok(s) => want == Ok::<Seq<char>, BuildErrorView>(s@),
        Err(e) => want == Err::<Seq<char>, BuildErrorView>(e@),
    }
}

/// The name, in the caller's language, of the type that `ty` lowers to.
pub fn plan_type(resolver: &Resolver, ty: &TypeExpression, origin: &str, memo: &mut TypeCache) -> (r:
    Result<String, BuildError>)
    ensures
        final(memo)@ == planned_type(*resolver, ty@, origin@, old(memo)@).memo,
        is_text_outcome(r, planned_type(*resolver, ty@, origin@, old(memo)@).result),
{
    match lower_type(resolver, ty, origin, memo) {
        Err(e) => Err(e),
        Ok(seq) => {
            if seq.len() == 0 {
                return Err(BuildError::UnsupportedShape);
            }
            match seq[seq.len() - 1].format.to_caller_type_name() {
                Some(n) => Ok(n),
                None => Err(BuildError::UnsupportedShape),
            }
        },
    }
}

/// The name of a path without the path.
pub fn base_of(t: &TypeExpression) -> (r: Option<String>)
    ensures
        match r {
            Some(n) => path_base(t@) == Some(n@),
            None => path_base(t@) is None,
        },
{
    match t {
        TypeExpression::NamedPath { name, .. } => Some(name_without_path(name.as_str())),
        _ => None,
    }
}

/// A failure among the first `n` inputs is the failure of any longer run.
pub proof fn lemma_inputs_fail(
    r: Resolver,
    inputs: Seq<Parameter>,
    receiver: Option<TypeView>,
    origin: Seq<char>,
    memo: Memo,
    n: int,
    m: int,
)
    requires
        0 <= n <= m <= inputs.len(),
        planned_inputs(r, inputs, receiver, origin, memo, n).result is Err,
    ensures
        planned_inputs(r, inputs, receiver, origin, memo, m) == planned_inputs(
            r,
            inputs,
            receiver,
            origin,
            memo,
            n,
        ),
    decreases m - n,
{
    if n < m {
        lemma_inputs_fail(r, inputs, receiver, origin, memo, n, m - 1);
    }
}

/// The view of an optional receiver type.
pub open spec fn receiver_view(receiver: Option<&TypeExpression>) -> Option<TypeView> {
    match receiver {
        Some(t) => Some(t@),
        None => None,
    }
}

/// Whether `got` is the outcome `want` of planning a callable.
pub open spec fn is_plan_outcome(
    got: Result<CallablePlan, BuildError>,
    want: Result<CallablePlanView, BuildErrorView>,
) -> bool {
    match got {
        Ok(p) => want == Ok::<CallablePlanView, BuildErrorView>(p@),
        Err(e) => want == Err::<CallablePlanView, BuildErrorView>(e@),
    }
}

/// What the wrapper of the callable `item` is made from; `receiver` is the
/// type that a method belongs to.
pub fn plan_callable(
    resolver: &Resolver,
    item: &Item,
    receiver: Option<&TypeExpression>,
    origin: &str,
    memo: &mut TypeCache,
) -> (r: Result<CallablePlan, BuildError>)
    ensures
        final(memo)@ == planned(
            *resolver,
            *item,
            receiver_view(receiver),
            origin@,
            old(memo)@,
        ).memo,
        is_plan_outcome(
            r,
            planned(*resolver, *item, receiver_view(receiver), origin@, old(memo)@).result,
        ),
{
    let sig = match &item.kind {
        ItemKind::Function(sig) => sig,
        _ => {
            return Err(BuildError::UnsupportedShape);
        },
    };
    let out = match &sig.output {
        None => {
            return Err(BuildError::UnsupportedShape);
        },
        Some(t) => t,
    };
    let output_type = match plan_type(resolver, out, origin, memo) {
        Err(e) => {
            return Err(e);
        },
        Ok(n) => n,
    };
    let ghost start = memo@;
    let ghost want_receiver = receiver_view(receiver);
    let mut inputs: Vec<PlannedInput> = Vec::new();
    let mut n: usize = 0;
    assert(crate::caller::input_views(inputs@) =~= Seq::empty());
    while n < sig.inputs.len()
        invariant
            n <= sig.inputs@.len(),
            want_receiver == receiver_view(receiver),
            item.kind == ItemKind::Function(*sig),
            sig.output == Some(*out),
            planned_type(*resolver, out@, origin@, old(memo)@) == done::<Seq<char>>(
                output_type@,
                start,
            ),
            planned_inputs(*resolver, sig.inputs@, want_receiver, origin@, start, n as int)
                == done::<Seq<PlannedInputView>>(crate::caller::input_views(inputs@), memo@),
        decreases sig.inputs@.len() - n,
    {
        let p = &sig.inputs[n];
        let ghost before = crate::caller::input_views(inputs@);
        let planned_input = if same_text(p.name.as_str(), "self") {
            let named = match receiver {
                Some(ty) => base_of(ty),
                None => None,
            };
            match named {
                Some(t) => PlannedInput { name: p.name.clone(), type_text: t, is_receiver: true },
                None => {
                    proof {
                        lemma_inputs_fail(
                            *resolver,
                            sig.inputs@,
                            want_receiver,
                            origin@,
                            start,
                            n + 1,
                            sig.inputs@.len() as int,
                        );
                    }
                    return Err(BuildError::UnsupportedShape);
                },
            }
        } else {
            match plan_type(resolver, &p.ty, origin, memo) {
                Err(e) => {
                    proof {
                        lemma_inputs_fail(
                            *resolver,
                            sig.inputs@,
                            want_receiver,
                            origin@,
                            start,
                            n + 1,
                            sig.inputs@.len() as int,
                        );
                    }
                    return Err(e);
                },
                Ok(name) => PlannedInput {
                    name: p.name.clone(),
                    type_text: name,
                    is_receiver: false,
                },
            }
        };
        inputs.push(planned_input);
        assert(crate::caller::input_views(inputs@) =~= before.push(planned_input@));
        n += 1;
    }
    let fallible = match base_of(out) {
        Some(b) => same_text(b.as_str(), "Result"),
        None => false,
    };
    let is_text = match base_of(out) {
        Some(b) => same_text(b.as_str(), "String"),
        None => false,
    };
    let return_type = if fallible {
        match out {
            TypeExpression::NamedPath { args, .. } => {
                proof {
                    lemma_models(args@);
                }
                if args.len() == 0 {
                    return Err(BuildError::UnsupportedShape);
                }
                match plan_type(resolver, &args[0], origin, memo) {
                    Err(e) => {
                        return Err(e);
                    },
                    Ok(n) => n,
                }
            },
            _ => {
                return Err(BuildError::UnsupportedShape);
            },
        }
    } else if is_text {
        String::from_str("std::string")
    } else {
        output_type.clone()
    };
    let docs = match &item.docs {
        Some(d) => lines_of(d.as_str()),
        None => {
            let none: Vec<String> = Vec::new();
            assert(views(none@) =~= Seq::empty());
            none
        },
    };
    let name = match &item.name {
        Some(n) => n.clone(),
        None => String::new(),
    };
    Ok(CallablePlan { name, docs, output_type, return_type, fallible, inputs })
}

/// The name of a type in a raw declaration of an entry point.
///
/// A path is named by its last segment and the names of its arguments, a
/// pointer by what it points to; references and function pointers have an
/// empty name. Tuples, arrays and generic parameters have none.
pub open spec fn c_type(t: TypeView) -> Option<Seq<char>>
    decreases t, 0int,
{
    match t {
        TypeView::NamedPath { name, id, args } => if last_segment(name) == "c_char"@ {
            Some("char"@)
        } else {
            match c_suffix(args, args.len() as int) {
                Some(s) => Some(last_segment(name) + s),
                None => None,
            }
        },
        TypeView::Primitive(p) => if p == "u8"@ {
            Some("std::uint8_t"@)
        } else if p == "usize"@ {
            Some("size_t"@)
        } else if p == "u16"@ {
            Some("std::uint16_t"@)
        } else {
            Some(p)
        },
        TypeView::FunctionPointer => Some(Seq::empty()),
        TypeView::Reference(_) => Some(Seq::empty()),
        TypeView::RawPointer { mutable, target } => match c_type(*target) {
            Some(n) => if mutable {
                Some(n + "*"@)
            } else {
                Some("const "@ + n + "*"@)
            },
            None => None,
        },
        _ => None,
    }
}

/// The names of the first `n` arguments of a path, each after a `_`.
pub open spec fn c_suffix(args: Seq<TypeView>, n: int) -> Option<Seq<char>>
    decreases args, n,
{
    if n <= 0 || n > args.len() {
        Some(Seq::empty())
    } else {
        match (c_suffix(args, n - 1), c_type(args[n - 1])) {
            (Some(a), Some(b)) => Some(a + "_"@ + b),
            _ => None,
        }
    }
}

/// Where the first `n` arguments have no name, no longer run has.
pub proof fn lemma_suffix_fails(args: Seq<TypeView>, n: int, m: int)
    requires
        0 <= n <= m <= args.len(),
        c_suffix(args, n) is None,
    ensures
        c_suffix(args, m) is None,
    decreases m - n,
{
    if n < m {
        lemma_suffix_fails(args, n, m - 1);
    }
}

/// The name of `t` in a raw declaration of an entry point.
pub fn to_c_type(t: &TypeExpression) -> (r: Option<String>)
    ensures
        match r {
            Some(n) => c_type(t@) == Some(n@),
            None => c_type(t@) is None,
        },
    decreases t,
{
    match t {
        TypeExpression::NamedPath { name, id, args } => {
            let base = name_without_path(name.as_str());
            if same_text(base.as_str(), "c_char") {
                return Some(String::from_str("char"));
            }
            proof {
                lemma_models(args@);
            }
            let mut out = String::new();
            let mut i: usize = 0;
            while i < args.len()
                invariant
                    i <= args@.len(),
                    decreases_to!(t => args),
                    t@ == (TypeView::NamedPath { name: name@, id: *id, args: models(args@) }),
                    last_segment(name@) != "c_char"@,
                    models(args@).len() == args@.len(),
                    forall|k: int| 0 <= k < args@.len() ==> models(args@)[k] == args@[k]@,
                    c_suffix(models(args@), i as int) == Some(out@),
                decreases args@.len() - i,
            {
                match to_c_type(&args[i]) {
                    Some(n) => {
                        out.append("_");
                        out.append(n.as_str());
                    },
                    None => {
                        proof {
                            lemma_suffix_fails(models(args@), i + 1, args@.len() as int);
                        }
                        return None;
                    },
                }
                i += 1;
            }
            let mut named = base;
            named.append(out.as_str());
            Some(named)
        },
        TypeExpression::Primitive(p) => {
            if same_text(p.as_str(), "u8") {
                Some(String::from_str("std::uint8_t"))
            } else if same_text(p.as_str(), "usize") {
                Some(String::from_str("size_t"))
            } else if same_text(p.as_str(), "u16") {
                Some(String::from_str("std::uint16_t"))
            } else {
                Some(p.clone())
            }
        },
        TypeExpression::FunctionPointer => Some(String::new()),
        TypeExpression::Reference(_) => Some(String::new()),
        TypeExpression::RawPointer { mutable, target } => {
            assert(t@ == TypeView::RawPointer { mutable: *mutable, target: Box::new((**target)@) });
            match to_c_type(target) {
                Some(n) => {
                    if *mutable {
                        Some(text2(n.as_str(), "*"))
                    } else {
                        Some(text3("const ", n.as_str(), "*"))
                    }
                },
                None => None,
            }
        },
        _ => None,
    }
}

/// The declarations of the first `n` parameters of an entry point.
pub open spec fn c_parameters(inputs: Seq<Parameter>, n: int) -> Option<Seq<Seq<char>>>
    decreases n,
{
    if n <= 0 || n > inputs.len() {
        Some(Seq::empty())
    } else {
        match (c_parameters(inputs, n - 1), c_type(inputs[n - 1].ty@)) {
            (Some(acc), Some(t)) => Some(acc.push(t + " "@ + inputs[n - 1].name@)),
            _ => None,
        }
    }
}

/// Where the first `n` parameters cannot be declared, no longer run can.
pub proof fn lemma_parameters_fail(inputs: Seq<Parameter>, n: int, m: int)
    requires
        0 <= n <= m <= inputs.len(),
        c_parameters(inputs, n) is None,
    ensures
        c_parameters(inputs, m) is None,
    decreases m - n,
{
    if n < m {
        lemma_parameters_fail(inputs, n, m - 1);
    }
}

/// The raw declaration of the entry point `name` with the signature `sig`.
pub open spec fn entry_declaration(name: Seq<char>, sig: FunctionSignature) -> Option<Seq<char>> {
    let returned = match sig.output {
        Some(t) => c_type(t@),
        None => Some("void"@),
    };
    match (returned, c_parameters(sig.inputs@, sig.inputs@.len() as int)) {
        (Some(ret), Some(params)) => Some(
            "extern \"C\" "@ + ret + " "@ + name + "("@ + joined(params, ", "@) + ");"@,
        ),
        _ => None,
    }
}

/// The raw declaration of the entry point `name` with the signature `sig`.
pub fn generate_extern_c_function_def(name: &str, sig: &FunctionSignature) -> (r: Option<String>)
    ensures
        match r {
            Some(d) => entry_declaration(name@, *sig) == Some(d@),
            None => entry_declaration(name@, *sig) is None,
        },
{
    let returned = match &sig.output {
        Some(t) => match to_c_type(t) {
            Some(n) => n,
            None => {
                return None;
            },
        },
        None => String::from_str("void"),
    };
    let mut params: Vec<String> = Vec::new();
    let mut i: usize = 0;
    assert(views(params@) =~= Seq::empty());
    while i < sig.inputs.len()
        invariant
            i <= sig.inputs@.len(),
            c_parameters(sig.inputs@, i as int) == Some(views(params@)),
        decreases sig.inputs@.len() - i,
    {
        match to_c_type(&sig.inputs[i].ty) {
            Some(t) => {
                push_text(&mut params, text3(t.as_str(), " ", sig.inputs[i].name.as_str()));
            },
            None => {
                proof {
                    lemma_parameters_fail(sig.inputs@, i + 1, sig.inputs@.len() as int);
                }
                return None;
            },
        }
        i += 1;
    }
    let list = join(&params, ", ");
    Some(text7("extern \"C\" ", returned.as_str(), " ", name, "(", list.as_str(), ");"))
}

/// The raw declarations of the entry points among the first `n` indices of
/// `picked`, in the order of the document.
pub open spec fn declarations(items: Seq<Item>, picked: Seq<int>, n: int) -> Option<
    Seq<Seq<char>>,
>
    decreases n,
{
    if n <= 0 || n > picked.len() {
        Some(Seq::empty())
    } else {
        let item = items[picked[n - 1]];
        match (declarations(items, picked, n - 1), item.kind) {
            (Some(acc), ItemKind::Function(sig)) => match entry_declaration(
                item_name(item),
                sig,
            ) {
                Some(d) => Some(acc.push(d)),
                None => None,
            },
            _ => None,
        }
    }
}

/// Where the first `n` entry points cannot be declared, no longer run can.
pub proof fn lemma_declarations_fail(items: Seq<Item>, picked: Seq<int>, n: int, m: int)
    requires
        0 <= n <= m <= picked.len(),
        declarations(items, picked, n) is None,
    ensures
        declarations(items, picked, m) is None,
    decreases m - n,
{
    if n < m {
        lemma_declarations_fail(items, picked, n, m - 1);
    }
}

/// The raw declarations of the entry points of the primary document, in
/// lexicographic order.
pub open spec fn ordered_declarations(r: Resolver) -> Option<Seq<Seq<char>>> {
    let items = r.documents@[0].items@;
    let picked = selected(items, Selection::EntryPoints, items.len() as int);
    match declarations(items, picked, picked.len() as int) {
        Some(d) => Some(arranged(d, ordered(d, d.len() as int))),
        None => None,
    }
}

/// The raw declarations of the entry points of the primary document, in
/// lexicographic order.
pub fn collect_declarations(resolver: &Resolver) -> (r: Option<Vec<String>>)
    requires
        resolver.wf(),
    ensures
        match r {
            Some(v) => ordered_declarations(*resolver) == Some(views(v@)),
            None => ordered_declarations(*resolver) is None,
        },
{
    let items = &resolver.documents[0].items;
    let picked = select_items(items, Selection::EntryPoints);
    let mut found: Vec<String> = Vec::new();
    let mut n: usize = 0;
    assert(views(found@) =~= Seq::empty());
    while n < picked.len()
        invariant
            n <= picked@.len(),
            found@.len() == n,
            resolver.wf(),
            *items == resolver.documents@[0].items,
            indices(picked@) == selected(
                items@,
                Selection::EntryPoints,
                items@.len() as int,
            ),
            forall|i: int| 0 <= i < picked@.len() ==> picked@[i] < items@.len(),
            declarations(items@, indices(picked@), n as int) == Some(views(found@)),
        decreases picked@.len() - n,
    {
        let item = &items[picked[n]];
        assert(indices(picked@)[n as int] == picked@[n as int]);
        let name = match &item.name {
            Some(s) => s.clone(),
            None => String::new(),
        };
        let declared = match &item.kind {
            ItemKind::Function(sig) => generate_extern_c_function_def(name.as_str(), sig),
            _ => None,
        };
        match declared {
            Some(d) => {
                push_text(&mut found, d);
            },
            None => {
                proof {
                    lemma_declarations_fail(
                        items@,
                        indices(picked@),
                        n + 1,
                        picked@.len() as int,
                    );
                }
                return None;
            },
        }
        n += 1;
    }
    let order = sort_order(&found);
    let mut out: Vec<String> = Vec::new();
    let mut k: usize = 0;
    while k < order.len()
        invariant
            k <= order@.len(),
            out@.len() == k,
            within(indices(order@), found@.len() as int),
            forall|j: int| 0 <= j < k ==> out@[j]@ == found@[order@[j] as int]@,
        decreases order@.len() - k,
    {
        assert(0 <= indices(order@)[k as int] < found@.len());
        out.push(found[order[k]].clone());
        k += 1;
    }
    assert(views(out@) =~= arranged(
        views(found@),
        ordered(views(found@), found@.len() as int),
    ));
    Some(out)
}

/// The lines at the head of every artifact: the copyright line and the line
/// that says what generated the file, where they are set, then the guard
/// against double inclusion and the common headers.
pub open spec fn header_lines(config: Config) -> Seq<Seq<char>> {
    let copyright = match config.copyright_header {
        Some(h) => seq!["// "@ + h@],
        None => Seq::empty(),
    };
    let generated = match config.generated_by_header {
        Some(h) => seq!["// "@ + h@],
        None => Seq::empty(),
    };
    let blank = if config.copyright_header is Some || config.generated_by_header is Some {
        seq![Seq::<char>::empty()]
    } else {
        Seq::empty()
    };
    copyright + generated + blank + seq![
        "#pragma once"@,
        Seq::<char>::empty(),
        "#include <cstddef>"@,
        "#include <limits>"@,
    ]
}

/// The lines at the head of every artifact.
pub fn write_function_header(config: &Config) -> (r: Vec<String>)
    ensures
        views(r@) == header_lines(*config),
{
    let mut out: Vec<String> = Vec::new();
    assert(views(out@) =~= Seq::empty());
    proof {
        reveal_strlit("");
    }
    match &config.copyright_header {
        Some(h) => {
            push_text(&mut out, text2("// ", h.as_str()));
        },
        None => {},
    }
    match &config.generated_by_header {
        Some(h) => {
            push_text(&mut out, text2("// ", h.as_str()));
        },
        None => {},
    }
    if config.copyright_header.is_some() || config.generated_by_header.is_some() {
        push_text(&mut out, String::new());
    }
    push_text(&mut out, String::from_str("#pragma once"));
    push_text(&mut out, String::new());
    push_text(&mut out, String::from_str("#include <cstddef>"));
    push_text(&mut out, String::from_str("#include <limits>"));
    assert(views(out@) =~= header_lines(*config));
    out
}

/// The prefix of the names of the artifacts.
pub open spec fn file_prefix(config: Config) -> Seq<char> {
    match config.file_prefix {
        Some(p) => p@,
        None => config.api_lib_name@,
    }
}

/// The forward declarations of the types of the first `n` names.
pub open spec fn forward_lines(names: Seq<Seq<char>>, n: int) -> Seq<Seq<char>>
    decreases n,
{
    if n <= 0 || n > names.len() {
        Seq::empty()
    } else {
        forward_lines(names, n - 1).push("struct "@ + names[n - 1] + ";"@).push(Seq::empty())
    }
}

/// The artifact of raw declarations: the types with methods, each declared
/// forward, then the declarations of the entry points.
pub open spec fn declarations_artifact(
    config: Config,
    names: Seq<Seq<char>>,
    declared: Seq<Seq<char>>,
) -> ArtifactView {
    ArtifactView {
        file_name: file_prefix(config) + "_api_functions.hpp"@,
        lines: header_lines(config) + seq!["#include <cstdint>"@, Seq::<char>::empty()]
            + forward_lines(names, names.len() as int) + declared,
    }
}

/// The lines that include the raw declarations and the type definitions and
/// open the namespace.
pub open spec fn opening_lines(config: Config) -> Seq<Seq<char>> {
    seq![
        "#include \""@ + file_prefix(config) + "_api_functions.hpp\""@,
        Seq::<char>::empty(),
        "#include \""@ + config.namespace@ + ".hpp\""@,
        Seq::<char>::empty(),
        Seq::<char>::empty(),
        "namespace "@ + config.namespace@ + " {"@,
        Seq::<char>::empty(),
    ]
}

/// The line that closes the namespace.
pub open spec fn closing_line(config: Config) -> Seq<char> {
    "}  // end of namespace "@ + config.namespace@
}

/// The lines that open the class that holds an instance of the type `name`.
pub open spec fn holder_lines(name: Seq<char>) -> Seq<Seq<char>> {
    seq![
        "class "@ + name + "Holder {"@,
        "    "@ + name + "* inner;"@,
        "public:"@,
        "    "@ + name + "Holder("@ + name + "* ptr) {"@,
        "        this->inner = ptr;"@,
        "    }"@,
        Seq::<char>::empty(),
    ]
}

/// The artifact of the methods of the type `name`, whose wrappers are
/// `wrappers`.
pub open spec fn type_artifact(config: Config, name: Seq<char>, wrappers: Seq<Seq<char>>) -> ArtifactView {
    ArtifactView {
        file_name: file_prefix(config) + "_"@ + lower_case(name) + ".hpp"@,
        lines: header_lines(config) + opening_lines(config) + holder_lines(name) + wrappers
            + seq!["};"@, Seq::<char>::empty(), closing_line(config)],
    }
}

/// The artifact of the functions outside of any block, whose wrappers are
/// `wrappers`.
pub open spec fn free_artifact(config: Config, wrappers: Seq<Seq<char>>) -> ArtifactView {
    ArtifactView {
        file_name: file_prefix(config) + "_free_standing_functions.hpp"@,
        lines: header_lines(config) + opening_lines(config) + wrappers + seq![
            closing_line(config),
        ],
    }
}

/// The wrappers of the callables at the first `n` places, in order, planned
/// one after the other through the memo. A blank line follows each wrapper
/// where `spaced` is set.
pub open spec fn wrappers(
    r: Resolver,
    places: Seq<(int, int)>,
    receiver: Option<TypeView>,
    origin: Seq<char>,
    prefix: Seq<char>,
    spaced: bool,
    memo: Memo,
    n: int,
) -> Threaded<Seq<Seq<char>>>
    decreases n,
{
    if n <= 0 || n > places.len() {
        done(Seq::empty(), memo)
    } else {
        let before = wrappers(r, places, receiver, origin, prefix, spaced, memo, n - 1);
        match before.result {
            Err(e) => before,
            Ok(acc) => {
                let p = planned(r, r.item_at(places[n - 1]), receiver, origin, before.memo);
                match p.result {
                    Err(e) => failed(e, p.memo),
                    Ok(plan) => {
                        let text = acc + caller_wrapper(plan, prefix);
                        if spaced {
                            done(text.push(Seq::empty()), p.memo)
                        } else {
                            done(text, p.memo)
                        }
                    },
                }
            },
        }
    }
}

/// A failure among the first `n` callables is the failure of any longer run.
pub proof fn lemma_wrappers_fail(
    r: Resolver,
    places: Seq<(int, int)>,
    receiver: Option<TypeView>,
    origin: Seq<char>,
    prefix: Seq<char>,
    spaced: bool,
    memo: Memo,
    n: int,
    m: int,
)
    requires
        0 <= n <= m <= places.len(),
        wrappers(r, places, receiver, origin, prefix, spaced, memo, n).result is Err,
    ensures
        wrappers(r, places, receiver, origin, prefix, spaced, memo, m) == wrappers(
            r,
            places,
            receiver,
            origin,
            prefix,
            spaced,
            memo,
            n,
        ),
    decreases m - n,
{
    if n < m {
        lemma_wrappers_fail(r, places, receiver, origin, prefix, spaced, memo, n, m - 1);
    }
}

/// Whether `got` is the outcome `want` of writing lines.
pub open spec fn is_lines_outcome(
    got: Result<Vec<String>, BuildError>,
    want: Result<Seq<Seq<char>>, BuildErrorView>,
) -> bool {
    match got {
        Ok(v) => want == Ok::<Seq<Seq<char>>, BuildErrorView>(views(v@)),
        Err(e) => want == Err::<Seq<Seq<char>>, BuildErrorView>(e@),
    }
}

/// The wrappers of the callables at `places`, in order.
pub fn render_wrappers(
    resolver: &Resolver,
    places: &Vec<Place>,
    receiver: Option<&TypeExpression>,
    origin: &str,
    prefix: &str,
    spaced: bool,
    memo: &mut TypeCache,
) -> (r: Result<Vec<String>, BuildError>)
    requires
        valid_places(*resolver, places@),
    ensures
        final(memo)@ == wrappers(
            *resolver,
            place_pairs(places@),
            receiver_view(receiver),
            origin@,
            prefix@,
            spaced,
            old(memo)@,
            places@.len() as int,
        ).memo,
        is_lines_outcome(
            r,
            wrappers(
                *resolver,
                place_pairs(places@),
                receiver_view(receiver),
                origin@,
                prefix@,
                spaced,
                old(memo)@,
                places@.len() as int,
            ).result,
        ),
{
    let mut out: Vec<String> = Vec::new();
    let mut n: usize = 0;
    let ghost start = memo@;
    let ghost all = place_pairs(places@);
    let ghost want_receiver = receiver_view(receiver);
    assert(views(out@) =~= Seq::empty());
    while n < places.len()
        invariant
            n <= places@.len(),
            valid_places(*resolver, places@),
            all == place_pairs(places@),
            start == old(memo)@,
            want_receiver == receiver_view(receiver),
            wrappers(*resolver, all, want_receiver, origin@, prefix@, spaced, start, n as int)
                == done::<Seq<Seq<char>>>(views(out@), memo@),
        decreases places@.len() - n,
    {
        let place = places[n];
        assert(all[n as int] == (place.document as int, place.item as int));
        let item = resolver.item(place);
        match plan_callable(resolver, item, receiver, origin, memo) {
            Err(e) => {
                proof {
                    lemma_wrappers_fail(
                        *resolver,
                        all,
                        want_receiver,
                        origin@,
                        prefix@,
                        spaced,
                        start,
                        n + 1,
                        all.len() as int,
                    );
                }
                return Err(e);
            },
            Ok(plan) => {
                append_texts(&mut out, render_callable(&plan, prefix));
                if spaced {
                    push_text(&mut out, String::new());
                }
            },
        }
        n += 1;
    }
    Ok(out)
}

/// The artifacts of the first `n` groups, in order.
pub open spec fn type_artifacts(
    r: Resolver,
    groups: Seq<GroupView>,
    config: Config,
    prefix: Seq<char>,
    memo: Memo,
    n: int,
) -> Threaded<Seq<ArtifactView>>
    decreases n,
{
    if n <= 0 || n > groups.len() {
        done(Seq::empty(), memo)
    } else {
        let before = type_artifacts(r, groups, config, prefix, memo, n - 1);
        match before.result {
            Err(e) => before,
            Ok(acc) => {
                let g = groups[n - 1];
                match group_name(r, g) {
                    None => failed(BuildErrorView::UnsupportedShape, before.memo),
                    Some(name) => {
                        let w = wrappers(
                            r,
                            g.members,
                            Some(impl_type(r, g.impl_index)),
                            config.parent_crate@,
                            prefix,
                            false,
                            before.memo,
                            g.members.len() as int,
                        );
                        match w.result {
                            Err(e) => failed(e, w.memo),
                            Ok(text) => done(acc.push(type_artifact(config, name, text)), w.memo),
                        }
                    },
                }
            },
        }
    }
}

/// A failure among the first `n` groups is the failure of any longer run.
pub proof fn lemma_artifacts_fail(
    r: Resolver,
    groups: Seq<GroupView>,
    config: Config,
    prefix: Seq<char>,
    memo: Memo,
    n: int,
    m: int,
)
    requires
        0 <= n <= m <= groups.len(),
        type_artifacts(r, groups, config, prefix, memo, n).result is Err,
    ensures
        type_artifacts(r, groups, config, prefix, memo, m) == type_artifacts(
            r,
            groups,
            config,
            prefix,
            memo,
            n,
        ),
    decreases m - n,
{
    if n < m {
        lemma_artifacts_fail(r, groups, config, prefix, memo, n, m - 1);
    }
}

/// The names of the types of the first `n` groups; a group without a name
/// contributes the empty name.
pub open spec fn type_names(r: Resolver, groups: Seq<GroupView>, n: int) -> Seq<Seq<char>>
    decreases n,
{
    if n <= 0 || n > groups.len() {
        Seq::empty()
    } else {
        type_names(r, groups, n - 1).push(
            match group_name(r, groups[n - 1]) {
                Some(name) => name,
                None => Seq::empty(),
            },
        )
    }
}

/// The artifacts of the caller's side: the raw declarations, then one
/// artifact for each type with methods, then the functions outside of any
/// block.
pub open spec fn emitted(r: Resolver, config: Config, prefix: Seq<char>, memo: Memo) -> Threaded<
    Seq<ArtifactView>,
> {
    match exported_groups(r, config.parent_crate@) {
        Err(e) => failed(e, memo),
        Ok(groups) => match ordered_declarations(r) {
            None => failed(BuildErrorView::UnsupportedShape, memo),
            Some(declared) => {
                let first = declarations_artifact(
                    config,
                    type_names(r, groups, groups.len() as int),
                    declared,
                );
                let types = type_artifacts(r, groups, config, prefix, memo, groups.len() as int);
                match types.result {
                    Err(e) => failed(e, types.memo),
                    Ok(per_type) => {
                        let functions = exported_functions(r);
                        let w = wrappers(
                            r,
                            functions,
                            None,
                            config.parent_crate@,
                            prefix,
                            true,
                            types.memo,
                            functions.len() as int,
                        );
                        match w.result {
                            Err(e) => failed(e, w.memo),
                            Ok(text) => done(
                                seq![first] + per_type + seq![free_artifact(config, text)],
                                w.memo,
                            ),
                        }
                    },
                }
            },
        },
    }
}

/// Whether `got` is the outcome `want` of emitting artifacts.
pub open spec fn is_artifacts_outcome(
    got: Result<Vec<Artifact>, BuildError>,
    want: Result<Seq<ArtifactView>, BuildErrorView>,
) -> bool {
    match got {
        Ok(v) => want == Ok::<Seq<ArtifactView>, BuildErrorView>(artifact_views(v@)),
        Err(e) => want == Err::<Seq<ArtifactView>, BuildErrorView>(e@),
    }
}

/// The lines that include the raw declarations and the type definitions and
/// open the namespace.
fn opening(config: &Config) -> (r: Vec<String>)
    ensures
        views(r@) == opening_lines(*config),
{
    let mut out: Vec<String> = Vec::new();
    assert(views(out@) =~= Seq::empty());
    proof {
        reveal_strlit("");
    }
    push_text(
        &mut out,
        text3("#include \"", config.file_prefix().as_str(), "_api_functions.hpp\""),
    );
    push_text(&mut out, String::new());
    push_text(&mut out, text3("#include \"", config.namespace.as_str(), ".hpp\""));
    push_text(&mut out, String::new());
    push_text(&mut out, String::new());
    push_text(&mut out, text3("namespace ", config.namespace.as_str(), " {"));
    push_text(&mut out, String::new());
    assert(views(out@) =~= opening_lines(*config));
    out
}

/// The artifact of the methods of the type `name`.
fn make_type_artifact(config: &Config, name: &str, wrappers: Vec<String>) -> (r: Artifact)
    ensures
        r@ == type_artifact(*config, name@, views(wrappers@)),
{
    let mut lines = write_function_header(config);
    append_texts(&mut lines, opening(config));
    let mut holder: Vec<String> = Vec::new();
    assert(views(holder@) =~= Seq::empty());
    proof {
        reveal_strlit("");
    }
    push_text(&mut holder, text3("class ", name, "Holder {"));
    push_text(&mut holder, text3("    ", name, "* inner;"));
    push_text(&mut holder, String::from_str("public:"));
    push_text(&mut holder, text5("    ", name, "Holder(", name, "* ptr) {"));
    push_text(&mut holder, String::from_str("        this->inner = ptr;"));
    push_text(&mut holder, String::from_str("    }"));
    push_text(&mut holder, String::new());
    assert(views(holder@) =~= holder_lines(name@));
    append_texts(&mut lines, holder);
    append_texts(&mut lines, wrappers);
    let mut close: Vec<String> = Vec::new();
    assert(views(close@) =~= Seq::empty());
    push_text(&mut close, String::from_str("};"));
    push_text(&mut close, String::new());
    push_text(&mut close, text2("}  // end of namespace ", config.namespace.as_str()));
    assert(views(close@) =~= seq!["};"@, Seq::<char>::empty(), closing_line(*config)]);
    append_texts(&mut lines, close);
    let lower = ascii_lowercase(name);
    let file_name = text4(config.file_prefix().as_str(), "_", lower.as_str(), ".hpp");
    Artifact { file_name, lines }
}

/// The artifact of the functions outside of any block.
fn make_free_artifact(config: &Config, wrappers: Vec<String>) -> (r: Artifact)
    ensures
        r@ == free_artifact(*config, views(wrappers@)),
{
    let mut lines = write_function_header(config);
    append_texts(&mut lines, opening(config));
    append_texts(&mut lines, wrappers);
    let mut close: Vec<String> = Vec::new();
    assert(views(close@) =~= Seq::empty());
    push_text(&mut close, text2("}  // end of namespace ", config.namespace.as_str()));
    assert(views(close@) =~= seq![closing_line(*config)]);
    append_texts(&mut lines, close);
    let file_name = text2(config.file_prefix().as_str(), "_free_standing_functions.hpp");
    Artifact { file_name, lines }
}

/// The artifact of raw declarations.
fn make_declarations_artifact(config: &Config, names: &Vec<String>, declared: Vec<String>) -> (r:
    Artifact)
    ensures
        r@ == declarations_artifact(*config, views(names@), views(declared@)),
{
    let mut lines = write_function_header(config);
    let mut head: Vec<String> = Vec::new();
    assert(views(head@) =~= Seq::empty());
    proof {
        reveal_strlit("");
    }
    push_text(&mut head, String::from_str("#include <cstdint>"));
    push_text(&mut head, String::new());
    assert(views(head@) =~= seq!["#include <cstdint>"@, Seq::<char>::empty()]);
    append_texts(&mut lines, head);
    let mut forward: Vec<String> = Vec::new();
    let mut i: usize = 0;
    assert(views(forward@) =~= Seq::empty());
    while i < names.len()
        invariant
            i <= names@.len(),
            ""@ == Seq::<char>::empty(),
            views(forward@) == forward_lines(views(names@), i as int),
        decreases names@.len() - i,
    {
        push_text(&mut forward, text3("struct ", names[i].as_str(), ";"));
        push_text(&mut forward, String::new());
        i += 1;
    }
    append_texts(&mut lines, forward);
    append_texts(&mut lines, declared);
    let file_name = text2(config.file_prefix().as_str(), "_api_functions.hpp");
    Artifact { file_name, lines }
}

/// The artifacts of the caller's side for the exported callables of the
/// primary document; the names of the entry points start with `prefix`.
pub fn emit_bindings(resolver: &Resolver, config: &Config, prefix: &str, memo: &mut TypeCache) -> (r:
    Result<Vec<Artifact>, BuildError>)
    requires
        resolver.wf(),
    ensures
        final(memo)@ == emitted(*resolver, *config, prefix@, old(memo)@).memo,
        is_artifacts_outcome(r, emitted(*resolver, *config, prefix@, old(memo)@).result),
{
    let origin = config.parent_crate.as_str();
    let groups = match collect_groups(resolver, origin) {
        Err(e) => {
            return Err(e);
        },
        Ok(g) => g,
    };
    let declared = match collect_declarations(resolver) {
        None => {
            return Err(BuildError::UnsupportedShape);
        },
        Some(d) => d,
    };
    let ghost all = group_views(groups@);
    let ghost start = memo@;
    let mut names: Vec<String> = Vec::new();
    let mut artifacts: Vec<Artifact> = Vec::new();
    let mut n: usize = 0;
    assert(views(names@) =~= Seq::empty());
    assert(artifact_views(artifacts@) =~= Seq::empty());
    while n < groups.len()
        invariant
            n <= groups@.len(),
            resolver.wf(),
            valid_groups(*resolver, groups@),
            all == group_views(groups@),
            start == old(memo)@,
            origin@ == config.parent_crate@,
            exported_groups(*resolver, config.parent_crate@) == Ok::<
                Seq<GroupView>,
                BuildErrorView,
            >(all),
            ordered_declarations(*resolver) == Some(views(declared@)),
            views(names@) == type_names(*resolver, all, n as int),
            type_artifacts(*resolver, all, *config, prefix@, start, n as int) == done::<
                Seq<ArtifactView>,
            >(artifact_views(artifacts@), memo@),
        decreases groups@.len() - n,
    {
        let group = &groups[n];
        assert(all[n as int] == group@);
        let unsupported = TypeExpression::Unsupported;
        let ty: &TypeExpression = match &resolver.documents[0].items[group.impl_index].kind {
            ItemKind::Impl { for_type, .. } => for_type,
            _ => &unsupported,
        };
        assert(ty@ == impl_type(*resolver, group.impl_index as int));
        let name = match base_of(ty) {
            None => {
                proof {
                    lemma_artifacts_fail(
                        *resolver,
                        all,
                        *config,
                        prefix@,
                        start,
                        n + 1,
                        all.len() as int,
                    );
                }
                return Err(BuildError::UnsupportedShape);
            },
            Some(name) => name,
        };
        let text = match render_wrappers(
            resolver,
            &group.members,
            Some(ty),
            origin,
            prefix,
            false,
            memo,
        ) {
            Err(e) => {
                proof {
                    lemma_artifacts_fail(
                        *resolver,
                        all,
                        *config,
                        prefix@,
                        start,
                        n + 1,
                        all.len() as int,
                    );
                }
                return Err(e);
            },
            Ok(t) => t,
        };
        let artifact = make_type_artifact(config, name.as_str(), text);
        let ghost before = artifact_views(artifacts@);
        artifacts.push(artifact);
        assert(artifact_views(artifacts@) =~= before.push(artifact@));
        push_text(&mut names, name);
        n += 1;
    }
    let functions = collect_free_functions(resolver);
    let text = match render_wrappers(resolver, &functions, None, origin, prefix, true, memo) {
        Err(e) => {
            return Err(e);
        },
        Ok(t) => t,
    };
    let first = make_declarations_artifact(config, &names, declared);
    let last = make_free_artifact(config, text);
    let mut out: Vec<Artifact> = Vec::new();
    let ghost per_type = artifact_views(artifacts@);
    out.push(first);
    out.append(&mut artifacts);
    out.push(last);
    assert(artifact_views(out@) =~= seq![first@] + per_type + seq![last@]);
    Ok(out)
}

} // verus!
