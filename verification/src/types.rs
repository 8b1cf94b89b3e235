//! Source type expressions, as an interface document states them.

use vstd::prelude::*;

verus! {

/// A type as written in a signature or a field.
#[derive(Debug, PartialEq, Eq)]
pub enum TypeExpression {
    /// A built-in scalar, by its name: `i64`, `bool`, `usize`.
    Primitive(String),
    /// A path to a named item with its type arguments, in order.
    NamedPath { name: String, id: u32, args: Vec<TypeExpression> },
    /// An occurrence of a generic parameter, by its name.
    GenericParameter(String),
    Tuple(Vec<TypeExpression>),
    /// An array of fixed length; the length is kept as it was written.
    FixedArray { elem: Box<TypeExpression>, len: String },
    /// An owned indirection: a boxed value.
    OwnedIndirection(Box<TypeExpression>),
    /// A borrowed reference.
    Reference(Box<TypeExpression>),
    RawPointer { mutable: bool, target: Box<TypeExpression> },
    FunctionPointer,
    /// Any other shape: a trait object, a slice, an inferred or qualified type.
    Unsupported,
}

/// The mathematical model of a `TypeExpression`.
pub enum TypeView {
    Primitive(Seq<char>),
    NamedPath { name: Seq<char>, id: u32, args: Seq<TypeView> },
    GenericParameter(Seq<char>),
    Tuple(Seq<TypeView>),
    FixedArray { elem: Box<TypeView>, len: Seq<char> },
    OwnedIndirection(Box<TypeView>),
    Reference(Box<TypeView>),
    RawPointer { mutable: bool, target: Box<TypeView> },
    FunctionPointer,
    Unsupported,
}

/// The models of the expressions of `items`, in order.
pub open spec fn models(items: Seq<TypeExpression>) -> Seq<TypeView>
    decreases items,
{
    Seq::new(
        items.len(),
        |i: int|
            if 0 <= i < items.len() {
                items[i].model()
            } else {
                TypeView::Unsupported
            },
    )
}

impl TypeExpression {
    /// The model of this expression, by structural recursion.
    pub open spec fn model(self) -> TypeView
        decreases self,
    {
        match self {
            TypeExpression::Primitive(name) => TypeView::Primitive(name@),
            TypeExpression::NamedPath { name, id, args } => TypeView::NamedPath {
                name: name@,
                id: id,
                args: models(args@),
            },
            TypeExpression::GenericParameter(name) => TypeView::GenericParameter(name@),
            TypeExpression::Tuple(items) => TypeView::Tuple(models(items@)),
            TypeExpression::FixedArray { elem, len } => TypeView::FixedArray {
                elem: Box::new(elem.model()),
                len: len@,
            },
            TypeExpression::OwnedIndirection(inner) => TypeView::OwnedIndirection(
                Box::new(inner.model()),
            ),
            TypeExpression::Reference(inner) => TypeView::Reference(Box::new(inner.model())),
            TypeExpression::RawPointer { mutable, target } => TypeView::RawPointer {
                mutable: mutable,
                target: Box::new(target.model()),
            },
            TypeExpression::FunctionPointer => TypeView::FunctionPointer,
            TypeExpression::Unsupported => TypeView::Unsupported,
        }
    }
}

/// The models of a list are the models of its items, one by one.
pub proof fn lemma_models(items: Seq<TypeExpression>)
    ensures
        models(items).len() == items.len(),
        forall|i: int| 0 <= i < items.len() ==> (#[trigger] models(items)[i]) == items[i]@,
{
}

impl View for TypeExpression {
    type V = TypeView;

    open spec fn view(&self) -> TypeView {
        self.model()
    }
}

/// Copies of the expressions of `items`, in order.
pub fn duplicate_types(items: &Vec<TypeExpression>) -> (r: Vec<TypeExpression>)
    ensures
        models(r@) == models(items@),
    decreases items, 1nat,
{
    let mut out: Vec<TypeExpression> = Vec::new();
    let mut i: usize = 0;
    while i < items.len()
        invariant
            i <= items.len(),
            out@.len() == i,
            forall|j: int| 0 <= j < i ==> out@[j]@ == items@[j]@,
        decreases items.len() - i,
    {
        out.push(items[i].duplicate());
        i += 1;
    }
    assert(models(out@) =~= models(items@));
    out
}

/// Whether the two lists hold the same expressions in the same order.
pub fn same_types(a: &Vec<TypeExpression>, b: &Vec<TypeExpression>) -> (r: bool)
    ensures
        r == (models(a@) == models(b@)),
    decreases a, 1nat,
{
    if a.len() != b.len() {
        assert(models(a@).len() != models(b@).len());
        return false;
    }
    let mut i: usize = 0;
    while i < a.len()
        invariant
            a.len() == b.len(),
            i <= a.len(),
            forall|j: int| 0 <= j < i ==> a@[j]@ == b@[j]@,
        decreases a.len() - i,
    {
        if !a[i].same_as(&b[i]) {
            assert(models(a@)[i as int] != models(b@)[i as int]);
            return false;
        }
        i += 1;
    }
    assert(models(a@) =~= models(b@));
    true
}

impl TypeExpression {
    /// A copy of this expression.
    pub fn duplicate(&self) -> (r: TypeExpression)
        ensures
            r@ == self@,
        decreases self, 0nat,
    {
        match self {
            TypeExpression::Primitive(name) => TypeExpression::Primitive(name.clone()),
            TypeExpression::NamedPath { name, id, args } => TypeExpression::NamedPath {
                name: name.clone(),
                id: *id,
                args: duplicate_types(args),
            },
            TypeExpression::GenericParameter(name) => TypeExpression::GenericParameter(
                name.clone(),
            ),
            TypeExpression::Tuple(items) => TypeExpression::Tuple(duplicate_types(items)),
            TypeExpression::FixedArray { elem, len } => TypeExpression::FixedArray {
                elem: Box::new(elem.duplicate()),
                len: len.clone(),
            },
            TypeExpression::OwnedIndirection(inner) => TypeExpression::OwnedIndirection(
                Box::new(inner.duplicate()),
            ),
            TypeExpression::Reference(inner) => TypeExpression::Reference(
                Box::new(inner.duplicate()),
            ),
            TypeExpression::RawPointer { mutable, target } => TypeExpression::RawPointer {
                mutable: *mutable,
                target: Box::new(target.duplicate()),
            },
            TypeExpression::FunctionPointer => TypeExpression::FunctionPointer,
            TypeExpression::Unsupported => TypeExpression::Unsupported,
        }
    }

    /// Whether this expression and `other` are the same expression.
    pub fn same_as(&self, other: &TypeExpression) -> (r: bool)
        ensures
            r == (self@ == other@),
        decreases self, 0nat,
    {
        match (self, other) {
            (TypeExpression::Primitive(a), TypeExpression::Primitive(b)) => *a == *b,
            (
                TypeExpression::NamedPath { name: n1, id: i1, args: a1 },
                TypeExpression::NamedPath { name: n2, id: i2, args: a2 },
            ) => *n1 == *n2 && *i1 == *i2 && same_types(a1, a2),
            (TypeExpression::GenericParameter(a), TypeExpression::GenericParameter(b)) => *a
                == *b,
            (TypeExpression::Tuple(a), TypeExpression::Tuple(b)) => same_types(a, b),
            (
                TypeExpression::FixedArray { elem: e1, len: l1 },
                TypeExpression::FixedArray { elem: e2, len: l2 },
            ) => *l1 == *l2 && e1.same_as(e2),
            (TypeExpression::OwnedIndirection(a), TypeExpression::OwnedIndirection(b)) => {
                a.same_as(b)
            },
            (TypeExpression::Reference(a), TypeExpression::Reference(b)) => a.same_as(b),
            (
                TypeExpression::RawPointer { mutable: m1, target: t1 },
                TypeExpression::RawPointer { mutable: m2, target: t2 },
            ) => *m1 == *m2 && t1.same_as(t2),
            (TypeExpression::FunctionPointer, TypeExpression::FunctionPointer) => true,
            (TypeExpression::Unsupported, TypeExpression::Unsupported) => true,
            _ => false,
        }
    }
}

} // verus!
