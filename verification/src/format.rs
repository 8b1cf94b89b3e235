//! The lowered, serialization-oriented representation of types.
//!
//! A `Format` describes the wire shape of a value; a `ContainerFormat` the
//! shape of a named struct or enum. Each type has a view that holds sequences
//! of characters in place of strings, and contracts are stated over the views.

use vstd::prelude::*;

verus! {

/// The wire shape of a value.
#[derive(Debug, PartialEq, Eq)]
pub enum Format {
    Bool,
    I8,
    I16,
    I32,
    I64,
    U8,
    U16,
    U32,
    U64,
    F32,
    F64,
    Str,
    Option(Box<Format>),
    Sequence(Box<Format>),
    Tuple(Vec<Format>),
    FixedArray { elem: Box<Format>, len: u64 },
    NamedType(String),
}

/// The mathematical model of a `Format`.
pub enum FormatView {
    Bool,
    I8,
    I16,
    I32,
    I64,
    U8,
    U16,
    U32,
    U64,
    F32,
    F64,
    Str,
    Option(Box<FormatView>),
    Sequence(Box<FormatView>),
    Tuple(Seq<FormatView>),
    FixedArray { elem: Box<FormatView>, len: u64 },
    NamedType(Seq<char>),
}

impl Format {
    /// The model of this format, by structural recursion.
    pub open spec fn model(self) -> FormatView
        decreases self,
    {
        match self {
            Format::Bool => FormatView::Bool,
            Format::I8 => FormatView::I8,
            Format::I16 => FormatView::I16,
            Format::I32 => FormatView::I32,
            Format::I64 => FormatView::I64,
            Format::U8 => FormatView::U8,
            Format::U16 => FormatView::U16,
            Format::U32 => FormatView::U32,
            Format::U64 => FormatView::U64,
            Format::F32 => FormatView::F32,
            Format::F64 => FormatView::F64,
            Format::Str => FormatView::Str,
            Format::Option(inner) => FormatView::Option(Box::new(inner.model())),
            Format::Sequence(inner) => FormatView::Sequence(Box::new(inner.model())),
            Format::Tuple(items) => FormatView::Tuple(
                Seq::new(
                    items@.len(),
                    |i: int|
                        if 0 <= i < items@.len() {
                            items@[i].model()
                        } else {
                            FormatView::Bool
                        },
                ),
            ),
            Format::FixedArray { elem, len } => FormatView::FixedArray {
                elem: Box::new(elem.model()),
                len: len,
            },
            Format::NamedType(name) => FormatView::NamedType(name@),
        }
    }
}

impl View for Format {
    type V = FormatView;

    open spec fn view(&self) -> FormatView {
        self.model()
    }
}

/// The views of the items of `s`, in order.
pub open spec fn seq_view<T: View>(s: Seq<T>) -> Seq<T::V> {
    Seq::new(s.len(), |i: int| s[i]@)
}

/// The views of a sequence with one more item.
pub proof fn lemma_seq_view_push<T: View>(s: Seq<T>, x: T)
    ensures
        seq_view(s.push(x)) == seq_view(s).push(x@),
{
    assert(seq_view(s.push(x)) =~= seq_view(s).push(x@));
}

/// The views of two sequences, one after the other.
pub proof fn lemma_seq_view_add<T: View>(a: Seq<T>, b: Seq<T>)
    ensures
        seq_view(a + b) == seq_view(a) + seq_view(b),
{
    assert(seq_view(a + b) =~= seq_view(a) + seq_view(b));
}

/// A name with the format it stands for: a field of a struct.
#[derive(Debug, PartialEq, Eq)]
pub struct NamedFormat {
    pub name: String,
    pub value: Format,
}

pub struct NamedFormatView {
    pub name: Seq<char>,
    pub value: FormatView,
}

impl View for NamedFormat {
    type V = NamedFormatView;

    open spec fn view(&self) -> NamedFormatView {
        NamedFormatView { name: self.name@, value: self.value@ }
    }
}

/// The payload shape of one variant of an enum.
#[derive(Debug, PartialEq, Eq)]
pub enum VariantShape {
    Unit,
    NewType(Format),
    Tuple(Vec<Format>),
    Struct(Vec<NamedFormat>),
}

pub enum VariantShapeView {
    Unit,
    NewType(FormatView),
    Tuple(Seq<FormatView>),
    Struct(Seq<NamedFormatView>),
}

impl View for VariantShape {
    type V = VariantShapeView;

    open spec fn view(&self) -> VariantShapeView {
        match self {
            VariantShape::Unit => VariantShapeView::Unit,
            VariantShape::NewType(f) => VariantShapeView::NewType(f@),
            VariantShape::Tuple(fs) => VariantShapeView::Tuple(seq_view(fs@)),
            VariantShape::Struct(fs) => VariantShapeView::Struct(seq_view(fs@)),
        }
    }
}

/// One variant of an enum; its index is its place in the enum's list.
#[derive(Debug, PartialEq, Eq)]
pub struct NamedVariant {
    pub name: String,
    pub value: VariantShape,
}

pub struct NamedVariantView {
    pub name: Seq<char>,
    pub value: VariantShapeView,
}

impl View for NamedVariant {
    type V = NamedVariantView;

    open spec fn view(&self) -> NamedVariantView {
        NamedVariantView { name: self.name@, value: self.value@ }
    }
}

/// The lowered shape of a named struct or enum.
#[derive(Debug, PartialEq, Eq)]
pub enum ContainerFormat {
    Struct(Vec<NamedFormat>),
    Enum(Vec<NamedVariant>),
}

pub enum ContainerView {
    Struct(Seq<NamedFormatView>),
    Enum(Seq<NamedVariantView>),
}

impl View for ContainerFormat {
    type V = ContainerView;

    open spec fn view(&self) -> ContainerView {
        match self {
            ContainerFormat::Struct(fs) => ContainerView::Struct(seq_view(fs@)),
            ContainerFormat::Enum(vs) => ContainerView::Enum(seq_view(vs@)),
        }
    }
}

/// One element of a lowering: a format, and the definition of the container
/// that the format names where this element introduces it.
#[derive(Debug, PartialEq, Eq)]
pub struct Lowered {
    pub format: Format,
    pub container: Option<ContainerFormat>,
}

pub struct LoweredView {
    pub format: FormatView,
    pub container: Option<ContainerView>,
}

impl View for Lowered {
    type V = LoweredView;

    open spec fn view(&self) -> LoweredView {
        LoweredView {
            format: self.format@,
            container: match self.container {
                Some(c) => Some(c@),
                None => None,
            },
        }
    }
}

/// The name a format contributes to the name of a monomorphized type.
/// A tuple with members and a fixed array have none.
pub open spec fn short_name(f: FormatView) -> Option<Seq<char>>
    decreases f,
{
    match f {
        FormatView::NamedType(n) => Some(n),
        FormatView::Bool => Some("bool"@),
        FormatView::I8 => Some("i8"@),
        FormatView::I16 => Some("i16"@),
        FormatView::I32 => Some("i32"@),
        FormatView::I64 => Some("i64"@),
        FormatView::U8 => Some("u8"@),
        FormatView::U16 => Some("u16"@),
        FormatView::U32 => Some("u32"@),
        FormatView::U64 => Some("u64"@),
        FormatView::F32 => Some("f32"@),
        FormatView::F64 => Some("f64"@),
        FormatView::Str => Some("String"@),
        FormatView::Option(inner) => match short_name(*inner) {
            Some(n) => Some("Option_"@ + n),
            None => None,
        },
        FormatView::Sequence(inner) => match short_name(*inner) {
            Some(n) => Some("Vec_"@ + n),
            None => None,
        },
        FormatView::Tuple(items) => if items.len() == 0 {
            Some("void"@)
        } else {
            None
        },
        FormatView::FixedArray { .. } => None,
    }
}

/// The name of a format in the caller's language.
/// A tuple with members and a fixed array have none.
pub open spec fn caller_type_name(f: FormatView) -> Option<Seq<char>>
    decreases f,
{
    match f {
        FormatView::NamedType(n) => Some(n),
        FormatView::Bool => Some("bool"@),
        FormatView::I8 => Some("int8_t"@),
        FormatView::I16 => Some("int16_t"@),
        FormatView::I32 => Some("int32_t"@),
        FormatView::I64 => Some("int64_t"@),
        FormatView::U8 => Some("uint8_t"@),
        FormatView::U16 => Some("uint16_t"@),
        FormatView::U32 => Some("uint32_t"@),
        FormatView::U64 => Some("uint64_t"@),
        FormatView::F32 => Some("float"@),
        FormatView::F64 => Some("double"@),
        FormatView::Str => Some("std::string"@),
        FormatView::Option(inner) => match caller_type_name(*inner) {
            Some(n) => Some("std::optional<"@ + n + ">"@),
            None => None,
        },
        FormatView::Sequence(inner) => match caller_type_name(*inner) {
            Some(n) => Some("std::vector<"@ + n + ">"@),
            None => None,
        },
        FormatView::Tuple(items) => if items.len() == 0 {
            Some("void"@)
        } else {
            None
        },
        FormatView::FixedArray { .. } => None,
    }
}

impl Format {
    /// A copy of this format.
    pub fn duplicate(&self) -> (r: Format)
        ensures
            r@ == self@,
        decreases self,
    {
        match self {
            Format::Bool => Format::Bool,
            Format::I8 => Format::I8,
            Format::I16 => Format::I16,
            Format::I32 => Format::I32,
            Format::I64 => Format::I64,
            Format::U8 => Format::U8,
            Format::U16 => Format::U16,
            Format::U32 => Format::U32,
            Format::U64 => Format::U64,
            Format::F32 => Format::F32,
            Format::F64 => Format::F64,
            Format::Str => Format::Str,
            Format::Option(inner) => Format::Option(Box::new(inner.duplicate())),
            Format::Sequence(inner) => Format::Sequence(Box::new(inner.duplicate())),
            Format::Tuple(items) => {
                let mut out: Vec<Format> = Vec::new();
                let mut i: usize = 0;
                while i < items.len()
                    invariant
                        decreases_to!(self => items),
                        i <= items.len(),
                        out@.len() == i,
                        forall|j: int| 0 <= j < i ==> out@[j]@ == items@[j]@,
                    decreases items.len() - i,
                {
                    out.push(items[i].duplicate());
                    i += 1;
                }
                let r = Format::Tuple(out);
                assert(r@->Tuple_0 =~= self@->Tuple_0);
                r
            },
            Format::FixedArray { elem, len } => Format::FixedArray {
                elem: Box::new(elem.duplicate()),
                len: *len,
            },
            Format::NamedType(name) => Format::NamedType(name.clone()),
        }
    }

    /// The name this format contributes to the name of a monomorphized type.
    pub fn to_type_name(&self) -> (r: Option<String>)
        ensures
            match r {
                Some(n) => short_name(self@) == Some(n@),
                None => short_name(self@) is None,
            },
        decreases self,
    {
        match self {
            Format::NamedType(n) => Some(n.clone()),
            Format::Bool => Some(String::from_str("bool")),
            Format::I8 => Some(String::from_str("i8")),
            Format::I16 => Some(String::from_str("i16")),
            Format::I32 => Some(String::from_str("i32")),
            Format::I64 => Some(String::from_str("i64")),
            Format::U8 => Some(String::from_str("u8")),
            Format::U16 => Some(String::from_str("u16")),
            Format::U32 => Some(String::from_str("u32")),
            Format::U64 => Some(String::from_str("u64")),
            Format::F32 => Some(String::from_str("f32")),
            Format::F64 => Some(String::from_str("f64")),
            Format::Str => Some(String::from_str("String")),
            Format::Option(inner) => match inner.to_type_name() {
                Some(n) => {
                    let mut out = String::from_str("Option_");
                    out.append(n.as_str());
                    Some(out)
                },
                None => None,
            },
            Format::Sequence(inner) => match inner.to_type_name() {
                Some(n) => {
                    let mut out = String::from_str("Vec_");
                    out.append(n.as_str());
                    Some(out)
                },
                None => None,
            },
            Format::Tuple(items) => if items.len() == 0 {
                Some(String::from_str("void"))
            } else {
                None
            },
            Format::FixedArray { .. } => None,
        }
    }

    /// The name of this format in the caller's language.
    pub fn to_caller_type_name(&self) -> (r: Option<String>)
        ensures
            match r {
                Some(n) => caller_type_name(self@) == Some(n@),
                None => caller_type_name(self@) is None,
            },
        decreases self,
    {
        match self {
            Format::NamedType(n) => Some(n.clone()),
            Format::Bool => Some(String::from_str("bool")),
            Format::I8 => Some(String::from_str("int8_t")),
            Format::I16 => Some(String::from_str("int16_t")),
            Format::I32 => Some(String::from_str("int32_t")),
            Format::I64 => Some(String::from_str("int64_t")),
            Format::U8 => Some(String::from_str("uint8_t")),
            Format::U16 => Some(String::from_str("uint16_t")),
            Format::U32 => Some(String::from_str("uint32_t")),
            Format::U64 => Some(String::from_str("uint64_t")),
            Format::F32 => Some(String::from_str("float")),
            Format::F64 => Some(String::from_str("double")),
            Format::Str => Some(String::from_str("std::string")),
            Format::Option(inner) => match inner.to_caller_type_name() {
                Some(n) => {
                    let mut out = String::from_str("std::optional<");
                    out.append(n.as_str());
                    out.append(">");
                    Some(out)
                },
                None => None,
            },
            Format::Sequence(inner) => match inner.to_caller_type_name() {
                Some(n) => {
                    let mut out = String::from_str("std::vector<");
                    out.append(n.as_str());
                    out.append(">");
                    Some(out)
                },
                None => None,
            },
            Format::Tuple(items) => if items.len() == 0 {
                Some(String::from_str("void"))
            } else {
                None
            },
            Format::FixedArray { .. } => None,
        }
    }
}

/// Copies of the formats of `items`, in order.
pub fn duplicate_formats(items: &Vec<Format>) -> (r: Vec<Format>)
    ensures
        seq_view(r@) == seq_view(items@),
{
    let mut out: Vec<Format> = Vec::new();
    let mut i: usize = 0;
    while i < items.len()
        invariant
            i <= items.len(),
            out@.len() == i,
            forall|j: int| 0 <= j < i ==> out@[j]@ == items@[j]@,
        decreases items.len() - i,
    {
        out.push(items[i].duplicate());
        i += 1;
    }
    assert(seq_view(out@) =~= seq_view(items@));
    out
}

impl NamedFormat {
    /// A copy of this field.
    pub fn duplicate(&self) -> (r: NamedFormat)
        ensures
            r@ == self@,
    {
        NamedFormat { name: self.name.clone(), value: self.value.duplicate() }
    }
}

/// Copies of the fields of `items`, in order.
pub fn duplicate_fields(items: &Vec<NamedFormat>) -> (r: Vec<NamedFormat>)
    ensures
        seq_view(r@) == seq_view(items@),
{
    let mut out: Vec<NamedFormat> = Vec::new();
    let mut i: usize = 0;
    while i < items.len()
        invariant
            i <= items.len(),
            out@.len() == i,
            forall|j: int| 0 <= j < i ==> out@[j]@ == items@[j]@,
        decreases items.len() - i,
    {
        out.push(items[i].duplicate());
        i += 1;
    }
    assert(seq_view(out@) =~= seq_view(items@));
    out
}

impl VariantShape {
    /// A copy of this payload shape.
    pub fn duplicate(&self) -> (r: VariantShape)
        ensures
            r@ == self@,
    {
        match self {
            VariantShape::Unit => VariantShape::Unit,
            VariantShape::NewType(f) => VariantShape::NewType(f.duplicate()),
            VariantShape::Tuple(fs) => VariantShape::Tuple(duplicate_formats(fs)),
            VariantShape::Struct(fs) => VariantShape::Struct(duplicate_fields(fs)),
        }
    }
}

impl NamedVariant {
    /// A copy of this variant.
    pub fn duplicate(&self) -> (r: NamedVariant)
        ensures
            r@ == self@,
    {
        NamedVariant { name: self.name.clone(), value: self.value.duplicate() }
    }
}

impl ContainerFormat {
    /// A copy of this container.
    pub fn duplicate(&self) -> (r: ContainerFormat)
        ensures
            r@ == self@,
    {
        match self {
            ContainerFormat::Struct(fs) => ContainerFormat::Struct(duplicate_fields(fs)),
            ContainerFormat::Enum(vs) => {
                let mut out: Vec<NamedVariant> = Vec::new();
                let mut i: usize = 0;
                while i < vs.len()
                    invariant
                        i <= vs.len(),
                        out@.len() == i,
                        forall|j: int| 0 <= j < i ==> out@[j]@ == vs@[j]@,
                    decreases vs.len() - i,
                {
                    out.push(vs[i].duplicate());
                    i += 1;
                }
                assert(seq_view(out@) =~= seq_view(vs@));
                ContainerFormat::Enum(out)
            },
        }
    }
}

impl Lowered {
    /// A copy of this element.
    pub fn duplicate(&self) -> (r: Lowered)
        ensures
            r@ == self@,
    {
        let container = match &self.container {
            Some(c) => Some(c.duplicate()),
            None => None,
        };
        Lowered { format: self.format.duplicate(), container }
    }
}

/// Copies of the elements of `items`, in order.
pub fn duplicate_lowered(items: &Vec<Lowered>) -> (r: Vec<Lowered>)
    ensures
        seq_view(r@) == seq_view(items@),
{
    let mut out: Vec<Lowered> = Vec::new();
    let mut i: usize = 0;
    while i < items.len()
        invariant
            i <= items.len(),
            out@.len() == i,
            forall|j: int| 0 <= j < i ==> out@[j]@ == items@[j]@,
        decreases items.len() - i,
    {
        out.push(items[i].duplicate());
        i += 1;
    }
    assert(seq_view(out@) =~= seq_view(items@));
    out
}

} // verus!
