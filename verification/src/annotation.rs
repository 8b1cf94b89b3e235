//! The rules on the attributes of the fields of an exported type.
//!
//! A field may state the type that stands for it on the caller's side, or
//! that it is skipped. Both statements must agree with the attributes that
//! steer serialization. A type that is stated gives rise to an obligation:
//! that the caller's type is a safe mapping of the field's type.

use crate::text::{owner_path, path_owner, push_text, same_text, text3, text5, views};
use vstd::prelude::*;

verus! {

/// What follows the `=` of an attribute.
#[derive(Debug, Clone, PartialEq, Eq)]
pub enum AttributeValue {
    /// A path, as written.
    Path(String),
    /// A string literal, by its content.
    Literal(String),
}

/// The arguments of one attribute, as far as the rules read them.
#[derive(Debug, Clone, PartialEq, Eq)]
pub struct AttributeInput {
    /// The identifier that the arguments start with, if they start with one.
    pub head: Option<String>,
    /// What follows an `=` after the identifier, if anything does.
    pub value: Option<AttributeValue>,
    /// Whether more tokens follow what has been read.
    pub more: bool,
}

/// A statement on how a field crosses the boundary.
#[derive(Debug, Clone, PartialEq, Eq)]
pub enum BuffiAnnotation {
    /// The path of the type that stands for the field on the caller's side.
    Tpe(String),
    /// The field does not cross the boundary.
    Skip,
}

pub enum BuffiAnnotationView {
    Tpe(Seq<char>),
    Skip,
}

impl View for BuffiAnnotation {
    type V = BuffiAnnotationView;

    open spec fn view(&self) -> BuffiAnnotationView {
        match self {
            BuffiAnnotation::Tpe(p) => BuffiAnnotationView::Tpe(p@),
            BuffiAnnotation::Skip => BuffiAnnotationView::Skip,
        }
    }
}

/// An attribute that steers serialization, as far as the rules read it.
#[derive(Debug, Clone, PartialEq, Eq)]
pub enum SerdeAttr {
    Default,
    Skip,
    /// The path of the function that serializes the field.
    SerializeWith(String),
    /// The path of the function that deserializes the field.
    DeserializeWith(String),
    Unknown,
}

pub enum SerdeAttrView {
    Default,
    Skip,
    SerializeWith(Seq<char>),
    DeserializeWith(Seq<char>),
    Unknown,
}

impl View for SerdeAttr {
    type V = SerdeAttrView;

    open spec fn view(&self) -> SerdeAttrView {
        match self {
            SerdeAttr::Default => SerdeAttrView::Default,
            SerdeAttr::Skip => SerdeAttrView::Skip,
            SerdeAttr::SerializeWith(p) => SerdeAttrView::SerializeWith(p@),
            SerdeAttr::DeserializeWith(p) => SerdeAttrView::DeserializeWith(p@),
            SerdeAttr::Unknown => SerdeAttrView::Unknown,
        }
    }
}

/// The view of an optional text.
pub open spec fn text_view(s: Option<String>) -> Option<Seq<char>> {
    match s {
        Some(t) => Some(t@),
        None => None,
    }
}

/// What an attribute of the caller's side states, or why it states nothing.
///
/// `type = path` states the type, `skip` alone states that the field is
/// skipped. Anything else is a mistake.
pub open spec fn parsed_annotation(input: AttributeInput) -> Result<BuffiAnnotationView, Seq<char>> {
    match text_view(input.head) {
        None => Err("expected identifier"@),
        Some(head) => if head == "type"@ {
            match input.value {
                Some(AttributeValue::Path(p)) => if input.more {
                    Err("unexpected token"@)
                } else {
                    Ok(BuffiAnnotationView::Tpe(p@))
                },
                _ => Err("expected `=` and a path"@),
            }
        } else if head == "skip"@ {
            if input.value is Some || input.more {
                Err("unexpected tokens"@)
            } else {
                Ok(BuffiAnnotationView::Skip)
            }
        } else {
            Err("Expected `type`, but got `"@ + head + "`"@)
        },
    }
}

/// What an attribute that steers serialization states, or why it cannot be
/// read. An attribute with an unknown identifier is read as unknown whatever
/// follows the identifier.
pub open spec fn parsed_serde(input: AttributeInput) -> Result<SerdeAttrView, Seq<char>> {
    match text_view(input.head) {
        None => Err("expected identifier"@),
        Some(head) => if head == "default"@ || head == "skip"@ {
            if input.value is Some || input.more {
                Err("unexpected token"@)
            } else if head == "default"@ {
                Ok(SerdeAttrView::Default)
            } else {
                Ok(SerdeAttrView::Skip)
            }
        } else if head == "deserialize_with"@ || head == "serialize_with"@ {
            match input.value {
                Some(AttributeValue::Literal(p)) => if input.more {
                    Err("unexpected token"@)
                } else if head == "deserialize_with"@ {
                    Ok(SerdeAttrView::DeserializeWith(p@))
                } else {
                    Ok(SerdeAttrView::SerializeWith(p@))
                },
                _ => Err("expected `=` and a string literal"@),
            }
        } else if input.value is Some || input.more {
            Err("unexpected token"@)
        } else {
            Ok(SerdeAttrView::Unknown)
        },
    }
}

impl BuffiAnnotation {
    /// Reads an attribute of the caller's side.
    pub fn parse(input: &AttributeInput) -> (r: Result<BuffiAnnotation, String>)
        ensures
            match r {
                Ok(a) => parsed_annotation(*input) == Ok::<BuffiAnnotationView, Seq<char>>(a@),
                Err(e) => parsed_annotation(*input) == Err::<BuffiAnnotationView, Seq<char>>(e@),
            },
    {
        let head = match &input.head {
            None => {
                return Err(String::from_str("expected identifier"));
            },
            Some(h) => h,
        };
        if same_text(head.as_str(), "type") {
            match &input.value {
                Some(AttributeValue::Path(p)) => {
                    if input.more {
                        Err(String::from_str("unexpected token"))
                    } else {
                        Ok(BuffiAnnotation::Tpe(p.clone()))
                    }
                },
                _ => Err(String::from_str("expected `=` and a path")),
            }
        } else if same_text(head.as_str(), "skip") {
            if input.value.is_some() || input.more {
                Err(String::from_str("unexpected tokens"))
            } else {
                Ok(BuffiAnnotation::Skip)
            }
        } else {
            Err(text3("Expected `type`, but got `", head.as_str(), "`"))
        }
    }
}

impl SerdeAttr {
    /// Reads an attribute that steers serialization.
    pub fn parse(input: &AttributeInput) -> (r: Result<SerdeAttr, String>)
        ensures
            match r {
                Ok(a) => parsed_serde(*input) == Ok::<SerdeAttrView, Seq<char>>(a@),
                Err(e) => parsed_serde(*input) == Err::<SerdeAttrView, Seq<char>>(e@),
            },
    {
        let head = match &input.head {
            None => {
                return Err(String::from_str("expected identifier"));
            },
            Some(h) => h,
        };
        let is_default = same_text(head.as_str(), "default");
        let is_deserialize = same_text(head.as_str(), "deserialize_with");
        if is_default || same_text(head.as_str(), "skip") {
            if input.value.is_some() || input.more {
                Err(String::from_str("unexpected token"))
            } else if is_default {
                Ok(SerdeAttr::Default)
            } else {
                Ok(SerdeAttr::Skip)
            }
        } else if is_deserialize || same_text(head.as_str(), "serialize_with") {
            match &input.value {
                Some(AttributeValue::Literal(p)) => {
                    if input.more {
                        Err(String::from_str("unexpected token"))
                    } else if is_deserialize {
                        Ok(SerdeAttr::DeserializeWith(p.clone()))
                    } else {
                        Ok(SerdeAttr::SerializeWith(p.clone()))
                    }
                },
                _ => Err(String::from_str("expected `=` and a string literal")),
            }
        } else if input.value.is_some() || input.more {
            Err(String::from_str("unexpected token"))
        } else {
            Ok(SerdeAttr::Unknown)
        }
    }
}

/// One field of an exported type, with its attributes.
#[derive(Debug, Clone, PartialEq, Eq)]
pub struct FieldAttributes {
    /// The type of the field, as written.
    pub declared_type: String,
    /// The arguments of the attributes of the caller's side, in order.
    pub buffi: Vec<AttributeInput>,
    /// The arguments of the attributes that steer serialization, in order.
    pub serde: Vec<AttributeInput>,
}

/// The obligation that a stated type gives rise to: `cpp_type` must be a safe
/// mapping of `rust_type`.
#[derive(Debug, Clone, PartialEq, Eq)]
pub struct VerifyAttribute {
    pub rust_type: String,
    pub cpp_type: String,
}

pub struct VerifyAttributeView {
    pub rust_type: Seq<char>,
    pub cpp_type: Seq<char>,
}

impl View for VerifyAttribute {
    type V = VerifyAttributeView;

    open spec fn view(&self) -> VerifyAttributeView {
        VerifyAttributeView { rust_type: self.rust_type@, cpp_type: self.cpp_type@ }
    }
}

/// What the check of one field adds: mistakes, and at most one obligation.
pub struct FieldVerdict {
    pub errors: Seq<Seq<char>>,
    pub obligation: Option<VerifyAttributeView>,
}

/// The statements of the first `n` attributes of the caller's side. One
/// attribute that cannot be read spoils them all.
pub open spec fn annotations(inputs: Seq<AttributeInput>, n: int) -> Result<
    Seq<BuffiAnnotationView>,
    Seq<char>,
>
    decreases n,
{
    if n <= 0 || n > inputs.len() {
        Ok(Seq::empty())
    } else {
        match annotations(inputs, n - 1) {
            Err(e) => Err(e),
            Ok(acc) => match parsed_annotation(inputs[n - 1]) {
                Err(e) => Err(e),
                Ok(a) => Ok(acc.push(a)),
            },
        }
    }
}

/// The statements of the first `n` attributes that steer serialization; none
/// at all where one of the attributes cannot be read.
pub open spec fn serde_attributes(inputs: Seq<AttributeInput>, n: int) -> Option<Seq<SerdeAttrView>>
    decreases n,
{
    if n <= 0 || n > inputs.len() {
        Some(Seq::empty())
    } else {
        match (serde_attributes(inputs, n - 1), parsed_serde(inputs[n - 1])) {
            (Some(acc), Ok(a)) => Some(acc.push(a)),
            _ => None,
        }
    }
}

/// The type that the first statement of a type among the first `n` states.
pub open spec fn stated_type(attrs: Seq<BuffiAnnotationView>, n: int) -> Option<Seq<char>>
    decreases n,
{
    if n <= 0 || n > attrs.len() {
        None
    } else {
        match stated_type(attrs, n - 1) {
            Some(t) => Some(t),
            None => match attrs[n - 1] {
                BuffiAnnotationView::Tpe(p) => Some(p),
                BuffiAnnotationView::Skip => None,
            },
        }
    }
}

/// The path of the first function among the first `n` attributes that
/// serializes, or with `deserializing` set deserializes, the field.
pub open spec fn function_path(attrs: Seq<SerdeAttrView>, deserializing: bool, n: int) -> Option<
    Seq<char>,
>
    decreases n,
{
    if n <= 0 || n > attrs.len() {
        None
    } else {
        match function_path(attrs, deserializing, n - 1) {
            Some(p) => Some(p),
            None => match attrs[n - 1] {
                SerdeAttrView::SerializeWith(p) => if deserializing {
                    None
                } else {
                    Some(p)
                },
                SerdeAttrView::DeserializeWith(p) => if deserializing {
                    Some(p)
                } else {
                    None
                },
                _ => None,
            },
        }
    }
}

/// The mistake of skipping a field that serialization does not skip.
pub open spec fn skip_mistake() -> Seq<char> {
    "`#[buffi(skip)]` requires `#[serde(default)]` and `#[serde(skip)]` as well"@
}

/// The mistake of two functions that belong to different types.
pub open spec fn mismatch_mistake() -> Seq<char> {
    "`#[serde(serialize_with)]` needs to refer to the same type as `#[serde(deserialize_with)]`"@
}

/// The mistake of a function for one direction only.
pub open spec fn one_sided_mistake() -> Seq<char> {
    "`#[buffi(type)]` requires both `#[serde(serialize_with)]` and `#[serde(deserialize_with)]`"@
}

/// The verdict on one field.
///
/// Attributes of the caller's side that cannot be read are a mistake, and
/// none of them counts. A field that is skipped must be skipped by
/// serialization too, with a default. Where a type is stated, the functions
/// that serialize and deserialize the field must come in a pair and belong to
/// one type, which then is the type to map; without such functions the
/// declared type is. The obligation arises whether or not a mistake was
/// found.
pub open spec fn field_verdict(field: FieldAttributes) -> FieldVerdict {
    let read = annotations(field.buffi@, field.buffi@.len() as int);
    let (stated, first) = match read {
        Ok(a) => (a, Seq::<Seq<char>>::empty()),
        Err(e) => (Seq::<BuffiAnnotationView>::empty(), seq![e]),
    };
    let serde = match serde_attributes(field.serde@, field.serde@.len() as int) {
        Some(s) => s,
        None => Seq::empty(),
    };
    let second = if stated.contains(BuffiAnnotationView::Skip) && !(serde.contains(
        SerdeAttrView::Skip,
    ) && serde.contains(SerdeAttrView::Default)) {
        first.push(skip_mistake())
    } else {
        first
    };
    match stated_type(stated, stated.len() as int) {
        None => FieldVerdict { errors: second, obligation: None },
        Some(cpp) => {
            let ser = function_path(serde, false, serde.len() as int);
            let de = function_path(serde, true, serde.len() as int);
            match (ser, de) {
                (Some(s), Some(d)) => if path_owner(s) is Some && path_owner(s) == path_owner(d) {
                    FieldVerdict {
                        errors: second,
                        obligation: Some(
                            VerifyAttributeView { rust_type: path_owner(s)->0, cpp_type: cpp },
                        ),
                    }
                } else {
                    FieldVerdict {
                        errors: second.push(mismatch_mistake()),
                        obligation: Some(
                            VerifyAttributeView { rust_type: field.declared_type@, cpp_type: cpp },
                        ),
                    }
                },
                (None, None) => FieldVerdict {
                    errors: second,
                    obligation: Some(
                        VerifyAttributeView { rust_type: field.declared_type@, cpp_type: cpp },
                    ),
                },
                _ => FieldVerdict {
                    errors: second.push(one_sided_mistake()),
                    obligation: Some(
                        VerifyAttributeView { rust_type: field.declared_type@, cpp_type: cpp },
                    ),
                },
            }
        },
    }
}

/// The views of the obligations of `v`, in order.
pub open spec fn obligation_views(v: Seq<VerifyAttribute>) -> Seq<VerifyAttributeView> {
    Seq::new(v.len(), |i: int| v[i]@)
}

/// The views of the statements of `v`, in order.
pub open spec fn annotation_views(v: Seq<BuffiAnnotation>) -> Seq<BuffiAnnotationView> {
    Seq::new(v.len(), |i: int| v[i]@)
}

/// The views of the attributes of `v`, in order.
pub open spec fn serde_views(v: Seq<SerdeAttr>) -> Seq<SerdeAttrView> {
    Seq::new(v.len(), |i: int| v[i]@)
}

/// Where the first `n` attributes cannot be read, no longer run can.
pub proof fn lemma_annotations_fail(inputs: Seq<AttributeInput>, n: int, m: int)
    requires
        0 <= n <= m <= inputs.len(),
        annotations(inputs, n) is Err,
    ensures
        annotations(inputs, m) == annotations(inputs, n),
    decreases m - n,
{
    if n < m {
        lemma_annotations_fail(inputs, n, m - 1);
    }
}

/// Where the first `n` attributes cannot be read, no longer run can.
pub proof fn lemma_serde_fail(inputs: Seq<AttributeInput>, n: int, m: int)
    requires
        0 <= n <= m <= inputs.len(),
        serde_attributes(inputs, n) is None,
    ensures
        serde_attributes(inputs, m) is None,
    decreases m - n,
{
    if n < m {
        lemma_serde_fail(inputs, n, m - 1);
    }
}

/// The check of all fields of a type.
pub struct VerifyAttributes {
    pub errors: Vec<String>,
    pub tps: Vec<VerifyAttribute>,
}

/// The mistakes of the first `n` fields, in order.
pub open spec fn all_errors(fields: Seq<FieldAttributes>, n: int) -> Seq<Seq<char>>
    decreases n,
{
    if n <= 0 || n > fields.len() {
        Seq::empty()
    } else {
        all_errors(fields, n - 1) + field_verdict(fields[n - 1]).errors
    }
}

/// The obligations of the first `n` fields, in order.
pub open spec fn all_obligations(fields: Seq<FieldAttributes>, n: int) -> Seq<VerifyAttributeView>
    decreases n,
{
    if n <= 0 || n > fields.len() {
        Seq::empty()
    } else {
        match field_verdict(fields[n - 1]).obligation {
            Some(o) => all_obligations(fields, n - 1).push(o),
            None => all_obligations(fields, n - 1),
        }
    }
}

/// The bound that states one obligation.
pub open spec fn bound_text(o: VerifyAttributeView) -> Seq<char> {
    o.cpp_type + ": buffi::SafeTypeMapping<"@ + o.rust_type + ">,"@
}

/// The bounds of the first `n` obligations, one per line.
pub open spec fn bound_lines(obligations: Seq<VerifyAttributeView>, n: int) -> Seq<Seq<char>>
    decreases n,
{
    if n <= 0 || n > obligations.len() {
        Seq::empty()
    } else {
        bound_lines(obligations, n - 1).push("        "@ + bound_text(obligations[n - 1]))
    }
}

/// The item that holds the obligations: a constant with a function whose
/// bounds they are. Nothing where there is no obligation.
pub open spec fn check_item(obligations: Seq<VerifyAttributeView>) -> Seq<Seq<char>> {
    if obligations.len() == 0 {
        Seq::empty()
    } else {
        seq!["const _: () = {"@, "    fn __check()"@, "    where"@] + bound_lines(
            obligations,
            obligations.len() as int,
        ) + seq!["    {}"@, "};"@]
    }
}

/// The mistakes as they are reported: the last one first, then the others in
/// the order in which they were found.
pub open spec fn reported(errors: Seq<Seq<char>>) -> Seq<Seq<char>> {
    if errors.len() == 0 {
        errors
    } else {
        seq![errors.last()] + errors.drop_last()
    }
}

/// What the check of the fields of a type expands to: the item that holds
/// the obligations, or the mistakes.
pub open spec fn expanded(fields: Seq<FieldAttributes>) -> Result<Seq<Seq<char>>, Seq<Seq<char>>> {
    let errors = all_errors(fields, fields.len() as int);
    if errors.len() > 0 {
        Err(reported(errors))
    } else {
        Ok(check_item(all_obligations(fields, fields.len() as int)))
    }
}

impl VerifyAttributes {
    /// A check that has seen no field.
    pub fn new() -> (r: VerifyAttributes)
        ensures
            r.errors@.len() == 0,
            r.tps@.len() == 0,
    {
        VerifyAttributes { errors: Vec::new(), tps: Vec::new() }
    }

    /// Checks one field: its mistakes and its obligation are added.
    pub fn visit_field(&mut self, field: &FieldAttributes)
        ensures
            views(final(self).errors@) == views(old(self).errors@) + field_verdict(*field).errors,
            obligation_views(final(self).tps@) == match field_verdict(*field).obligation {
                Some(o) => obligation_views(old(self).tps@).push(o),
                None => obligation_views(old(self).tps@),
            },
    {
        let ghost errors_before = views(self.errors@);
        let ghost tps_before = obligation_views(self.tps@);
        let mut found: Vec<String> = Vec::new();
        assert(views(found@) =~= Seq::empty());
        let mut stated: Vec<BuffiAnnotation> = Vec::new();
        let mut i: usize = 0;
        let mut spoiled = false;
        assert(annotation_views(stated@) =~= Seq::empty());
        while i < field.buffi.len() && !spoiled
            invariant
                i <= field.buffi@.len(),
                !spoiled ==> annotations(field.buffi@, i as int) == Ok::<
                    Seq<BuffiAnnotationView>,
                    Seq<char>,
                >(annotation_views(stated@)) && views(found@) == Seq::<Seq<char>>::empty(),
                spoiled ==> annotations(field.buffi@, field.buffi@.len() as int) is Err
                    && views(found@) == seq![
                    annotations(field.buffi@, field.buffi@.len() as int)->Err_0,
                ],
            decreases field.buffi@.len() - i + (if spoiled { 0int } else { 1int }),
        {
            match BuffiAnnotation::parse(&field.buffi[i]) {
                Ok(a) => {
                    let ghost before = annotation_views(stated@);
                    stated.push(a);
                    assert(annotation_views(stated@) =~= before.push(a@));
                    i += 1;
                },
                Err(e) => {
                    proof {
                        lemma_annotations_fail(field.buffi@, i + 1, field.buffi@.len() as int);
                    }
                    push_text(&mut found, e);
                    spoiled = true;
                },
            }
        }
        if spoiled {
            stated = Vec::new();
            assert(annotation_views(stated@) =~= Seq::empty());
        }
        let ghost stated_spec = annotation_views(stated@);
        let mut serde: Vec<SerdeAttr> = Vec::new();
        let mut j: usize = 0;
        let mut unread = false;
        assert(serde_views(serde@) =~= Seq::empty());
        while j < field.serde.len() && !unread
            invariant
                j <= field.serde@.len(),
                !unread ==> serde_attributes(field.serde@, j as int) == Some(serde_views(serde@)),
                unread ==> serde_attributes(field.serde@, field.serde@.len() as int) is None,
            decreases field.serde@.len() - j + (if unread { 0int } else { 1int }),
        {
            match SerdeAttr::parse(&field.serde[j]) {
                Ok(a) => {
                    let ghost before = serde_views(serde@);
                    serde.push(a);
                    assert(serde_views(serde@) =~= before.push(a@));
                    j += 1;
                },
                Err(_) => {
                    proof {
                        lemma_serde_fail(field.serde@, j + 1, field.serde@.len() as int);
                    }
                    unread = true;
                },
            }
        }
        if unread {
            serde = Vec::new();
            assert(serde_views(serde@) =~= Seq::empty());
        }
        let ghost serde_spec = serde_views(serde@);
        let mut has_skip = false;
        let mut cpp: Option<String> = None;
        let mut k: usize = 0;
        while k < stated.len()
            invariant
                k <= stated@.len(),
                stated_spec == annotation_views(stated@),
                has_skip == stated_spec.take(k as int).contains(BuffiAnnotationView::Skip),
                text_view(cpp) == stated_type(stated_spec, k as int),
            decreases stated@.len() - k,
        {
            let ghost head = stated_spec.take(k as int);
            let ghost next = stated_spec.take(k + 1);
            assert(stated_spec[k as int] == stated@[k as int]@);
            assert(next =~= head.push(stated_spec[k as int]));
            assert forall|x: BuffiAnnotationView| next.contains(x) <==> (head.contains(x) || x
                == stated_spec[k as int]) by {
                if head.contains(x) {
                    let w = choose|w: int| 0 <= w < head.len() && head[w] == x;
                    assert(next[w] == x);
                }
                if x == stated_spec[k as int] {
                    assert(next[k as int] == x);
                }
                if next.contains(x) {
                    let w = choose|w: int| 0 <= w < next.len() && next[w] == x;
                    if w < k {
                        assert(head[w] == x);
                    }
                }
            }
            match &stated[k] {
                BuffiAnnotation::Skip => {
                    has_skip = true;
                },
                BuffiAnnotation::Tpe(p) => {
                    if cpp.is_none() {
                        cpp = Some(p.clone());
                    }
                },
            }
            k += 1;
        }
        assert(stated_spec.take(k as int) =~= stated_spec);
        let mut skips = false;
        let mut defaults = false;
        let mut ser: Option<String> = None;
        let mut de: Option<String> = None;
        let mut m: usize = 0;
        while m < serde.len()
            invariant
                m <= serde@.len(),
                serde_spec == serde_views(serde@),
                skips == serde_spec.take(m as int).contains(SerdeAttrView::Skip),
                defaults == serde_spec.take(m as int).contains(SerdeAttrView::Default),
                text_view(ser) == function_path(serde_spec, false, m as int),
                text_view(de) == function_path(serde_spec, true, m as int),
            decreases serde@.len() - m,
        {
            let ghost head = serde_spec.take(m as int);
            let ghost next = serde_spec.take(m + 1);
            assert(serde_spec[m as int] == serde@[m as int]@);
            assert(next =~= head.push(serde_spec[m as int]));
            assert forall|x: SerdeAttrView| next.contains(x) <==> (head.contains(x) || x
                == serde_spec[m as int]) by {
                if head.contains(x) {
                    let w = choose|w: int| 0 <= w < head.len() && head[w] == x;
                    assert(next[w] == x);
                }
                if x == serde_spec[m as int] {
                    assert(next[m as int] == x);
                }
                if next.contains(x) {
                    let w = choose|w: int| 0 <= w < next.len() && next[w] == x;
                    if w < m {
                        assert(head[w] == x);
                    }
                }
            }
            match &serde[m] {
                SerdeAttr::Skip => {
                    skips = true;
                },
                SerdeAttr::Default => {
                    defaults = true;
                },
                SerdeAttr::SerializeWith(p) => {
                    if ser.is_none() {
                        ser = Some(p.clone());
                    }
                },
                SerdeAttr::DeserializeWith(p) => {
                    if de.is_none() {
                        de = Some(p.clone());
                    }
                },
                SerdeAttr::Unknown => {},
            }
            m += 1;
        }
        assert(serde_spec.take(m as int) =~= serde_spec);
        if has_skip && !(skips && defaults) {
            push_text(
                &mut found,
                String::from_str(
                    "`#[buffi(skip)]` requires `#[serde(default)]` and `#[serde(skip)]` as well",
                ),
            );
        }
        match cpp {
            None => {},
            Some(cpp_type) => {
                let mut rust_type = field.declared_type.clone();
                match (ser, de) {
                    (Some(s), Some(d)) => {
                        let same = match (owner_path(s.as_str()), owner_path(d.as_str())) {
                            (Some(a), Some(b)) => if a == b {
                                Some(a)
                            } else {
                                None
                            },
                            _ => None,
                        };
                        match same {
                            Some(owner) => {
                                rust_type = owner;
                            },
                            None => {
                                push_text(
                                    &mut found,
                                    String::from_str(
                                        "`#[serde(serialize_with)]` needs to refer to the same type as `#[serde(deserialize_with)]`",
                                    ),
                                );
                            },
                        }
                    },
                    (None, None) => {},
                    _ => {
                        push_text(
                            &mut found,
                            String::from_str(
                                "`#[buffi(type)]` requires both `#[serde(serialize_with)]` and `#[serde(deserialize_with)]`",
                            ),
                        );
                    },
                }
                let obligation = VerifyAttribute { rust_type, cpp_type };
                self.tps.push(obligation);
                assert(obligation_views(self.tps@) =~= tps_before.push(obligation@));
            },
        }
        assert(views(found@) == field_verdict(*field).errors);
        let ghost a = self.errors@;
        let ghost b = found@;
        self.errors.append(&mut found);
        assert(views(a + b) =~= views(a) + views(b));
    }
}

/// What the check of the fields of a type expands to: the lines of the item
/// that holds the obligations, or the mistakes.
pub fn expand(fields: &Vec<FieldAttributes>) -> (r: Result<Vec<String>, Vec<String>>)
    ensures
        match r {
            Ok(lines) => expanded(fields@) == Ok::<Seq<Seq<char>>, Seq<Seq<char>>>(views(lines@)),
            Err(errors) => expanded(fields@) == Err::<Seq<Seq<char>>, Seq<Seq<char>>>(
                views(errors@),
            ),
        },
{
    let mut verifier = VerifyAttributes::new();
    let mut n: usize = 0;
    assert(views(verifier.errors@) =~= Seq::empty());
    assert(obligation_views(verifier.tps@) =~= Seq::empty());
    while n < fields.len()
        invariant
            n <= fields@.len(),
            views(verifier.errors@) == all_errors(fields@, n as int),
            obligation_views(verifier.tps@) == all_obligations(fields@, n as int),
        decreases fields@.len() - n,
    {
        verifier.visit_field(&fields[n]);
        n += 1;
    }
    let mut errors = verifier.errors;
    let ghost all = views(errors@);
    match errors.pop() {
        Some(last) => {
            let mut out: Vec<String> = Vec::new();
            assert(views(out@) =~= Seq::empty());
            push_text(&mut out, last);
            let ghost a = out@;
            let ghost b = errors@;
            out.append(&mut errors);
            assert(views(a + b) =~= views(a) + views(b));
            assert(views(b) =~= all.drop_last());
            Err(out)
        },
        None => {
            let tps = verifier.tps;
            let mut out: Vec<String> = Vec::new();
            assert(views(out@) =~= Seq::empty());
            if tps.len() == 0 {
                return Ok(out);
            }
            push_text(&mut out, String::from_str("const _: () = {"));
            push_text(&mut out, String::from_str("    fn __check()"));
            push_text(&mut out, String::from_str("    where"));
            let ghost head = views(out@);
            let ghost obligations = obligation_views(tps@);
            let mut i: usize = 0;
            assert(views(out@) =~= head + bound_lines(obligations, 0));
            while i < tps.len()
                invariant
                    i <= tps@.len(),
                    obligations == obligation_views(tps@),
                    views(out@) == head + bound_lines(obligations, i as int),
                decreases tps@.len() - i,
            {
                assert(obligations[i as int] == tps@[i as int]@);
                let bound = text5(
                    "        ",
                    tps[i].cpp_type.as_str(),
                    ": buffi::SafeTypeMapping<",
                    tps[i].rust_type.as_str(),
                    ">,",
                );
                assert(bound@ =~= "        "@ + bound_text(obligations[i as int]));
                push_text(&mut out, bound);
                i += 1;
                assert(views(out@) =~= head + bound_lines(obligations, i as int));
            }
            push_text(&mut out, String::from_str("    {}"));
            push_text(&mut out, String::from_str("};"));
            assert(views(out@) =~= check_item(obligations));
            Ok(out)
        },
    }
}

} // verus!
