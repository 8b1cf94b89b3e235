//! What type lowering gives: the mathematical model of the engine.
//!
//! A type expression is lowered into an ordered sequence of formats, each with
//! the definition of the container it introduces, if any; the last element is
//! the format of the expression itself. The work goes through a memo, which
//! makes it safe on types that refer to themselves and keeps a type from
//! being defined twice.
//!
//! The function `lowered` states the outcome for every expression, memo and
//! depth; the executable engine in `lower` computes exactly that.

use crate::cache::{CacheKey, CacheStateView};
use crate::document::{first_where, Item, ItemKind, StructShape, SummaryKind, VariantPayload};
use crate::error::BuildErrorView;
use crate::format::{
    short_name, ContainerView, FormatView, LoweredView, NamedFormatView, NamedVariantView,
    VariantShapeView,
};
use crate::resolver::{resolved_path, resolved_place, span_crate, Resolver};
use crate::text::{between, last_segment, path_owner, unsigned};
use crate::types::TypeView;
use vstd::prelude::*;

verus! {

/// The memo, as lowering sees it.
pub type Memo = Map<CacheKey, CacheStateView>;

/// A result together with the memo that the work left behind.
pub struct Threaded<T> {
    pub result: Result<T, BuildErrorView>,
    pub memo: Memo,
}

/// The work failed with `e` and left `memo`.
pub open spec fn failed<T>(e: BuildErrorView, memo: Memo) -> Threaded<T> {
    Threaded { result: Err(e), memo }
}

/// The work gave `value` and left `memo`.
pub open spec fn done<T>(value: T, memo: Memo) -> Threaded<T> {
    Threaded { result: Ok(value), memo }
}

/// The sequence of the one format `f`, which introduces no container.
pub open spec fn single(f: FormatView) -> Seq<LoweredView> {
    seq![LoweredView { format: f, container: None }]
}

/// The outcome `o`, with its result stored in the memo under `key` where the
/// work gave one.
pub open spec fn stored(o: Threaded<Seq<LoweredView>>, key: CacheKey) -> Threaded<
    Seq<LoweredView>,
> {
    match o.result {
        Ok(seq) => done(seq, o.memo.insert(key, CacheStateView::Cached(seq))),
        Err(_) => o,
    }
}

/// The format of a built-in scalar. Integers of the platform's size are taken
/// to be 64 bits wide.
pub open spec fn primitive_format(name: Seq<char>) -> Option<FormatView> {
    if name == "i64"@ {
        Some(FormatView::I64)
    } else if name == "i32"@ {
        Some(FormatView::I32)
    } else if name == "i16"@ {
        Some(FormatView::I16)
    } else if name == "i8"@ {
        Some(FormatView::I8)
    } else if name == "bool"@ {
        Some(FormatView::Bool)
    } else if name == "f64"@ {
        Some(FormatView::F64)
    } else if name == "f32"@ {
        Some(FormatView::F32)
    } else if name == "u8"@ {
        Some(FormatView::U8)
    } else if name == "u16"@ {
        Some(FormatView::U16)
    } else if name == "u32"@ {
        Some(FormatView::U32)
    } else if name == "u64"@ {
        Some(FormatView::U64)
    } else if name == "usize"@ {
        Some(FormatView::U64)
    } else if name == "isize"@ {
        Some(FormatView::I64)
    } else {
        None
    }
}

/// The generic arguments that surround the fields of a container reached by
/// a path with the arguments `args`, itself surrounded by `ambient`: a path
/// whose one argument is a bare parameter hands on what surrounds it; any
/// other path surrounds its fields with its own arguments.
pub open spec fn field_ambient(args: Seq<TypeView>, ambient: Seq<TypeView>) -> Seq<TypeView> {
    if args.len() == 0 {
        Seq::empty()
    } else if ambient.len() == 1 && args.len() == 1 && args[0] is GenericParameter {
        ambient
    } else {
        args
    }
}

/// The name of a monomorphized container: the base name, then `_` and the
/// name of each argument's format. `None` where an argument has no name.
pub open spec fn monomorphized_name(base: Seq<char>, finals: Seq<FormatView>) -> Option<Seq<char>>
    decreases finals.len(),
{
    if finals.len() == 0 {
        Some(base)
    } else {
        match (monomorphized_name(base, finals.drop_last()), short_name(finals.last())) {
            (Some(head), Some(n)) => Some(head + "_"@ + n),
            _ => None,
        }
    }
}

/// What ends an attribute that names a path in a string.
pub open spec fn attribute_end() -> Seq<char> {
    "\")]"@
}

/// What starts the attribute that names a helper type for both directions.
pub open spec fn with_start() -> Seq<char> {
    "#[serde(with = \""@
}

/// What starts the attribute that names a function for serializing.
pub open spec fn serialize_with_start() -> Seq<char> {
    "#[serde(serialize_with = \""@
}

/// What starts the attribute that names a function for deserializing.
pub open spec fn deserialize_with_start() -> Seq<char> {
    "#[serde(deserialize_with = \""@
}

/// The attributes that start with `start` and name a path.
pub open spec fn names_path(start: Seq<char>) -> spec_fn(String) -> bool {
    |a: String| between(a@, start, attribute_end()) is Some
}

/// The path that the first attribute of `attrs` starting with `start` names.
pub open spec fn named_path(attrs: Seq<String>, start: Seq<char>) -> Option<Seq<char>> {
    match first_where(attrs, names_path(start)) {
        Some(j) => between(attrs[j]@, start, attribute_end()),
        None => None,
    }
}

/// The helper type that the attributes of a field put in place of its
/// declared type, if any.
///
/// An attribute for both directions decides alone. Otherwise the serializing
/// and the deserializing side must both be given and name functions of the
/// same helper type; one side alone, or two different types, is a mismatch.
pub open spec fn override_of(attrs: Seq<String>) -> Result<Option<Seq<char>>, BuildErrorView> {
    match named_path(attrs, with_start()) {
        Some(p) => Ok(Some(p)),
        None => match (
            named_path(attrs, serialize_with_start()),
            named_path(attrs, deserialize_with_start()),
        ) {
            (None, None) => Ok(None),
            (Some(s), Some(d)) => {
                let ser = path_owner(s);
                let de = path_owner(d);
                if ser is Some && ser == de {
                    Ok(ser)
                } else {
                    Err(BuildErrorView::ConfigurationMismatch)
                }
            },
            _ => Err(BuildErrorView::ConfigurationMismatch),
        },
    }
}

/// The expression for plain text.
pub open spec fn text_type() -> TypeView {
    TypeView::NamedPath { name: "String"@, id: 0, args: Seq::empty() }
}

/// The expression that a type named by its path stands for: plain text needs
/// no document; anything else must resolve to a struct.
pub open spec fn named_type(r: Resolver, path: Seq<char>, origin: Seq<char>) -> Result<
    TypeView,
    BuildErrorView,
> {
    if last_segment(path) == "String"@ {
        Ok(text_type())
    } else {
        resolved_path(r.documents@, path, origin, SummaryKind::Struct)
    }
}

/// The expression for the error type of the pass, looked up by its name in
/// the primary document.
pub open spec fn error_type(r: Resolver) -> Result<TypeView, BuildErrorView> {
    if r.error_type@ == "String"@ {
        Ok(text_type())
    } else if r.documents@.len() == 0 {
        Err(BuildErrorView::UnknownIdentifier)
    } else {
        match r.documents@[0].short_name_index(r.error_type@) {
            Some(j) => Ok(
                TypeView::NamedPath {
                    name: r.error_type@,
                    id: r.documents@[0].items@[j].id,
                    args: Seq::empty(),
                },
            ),
            None => Err(BuildErrorView::UnknownIdentifier),
        }
    }
}

/// The type to lower for a field, with the generic arguments that surround
/// it: the declared type under `ambient`, or the helper type that the
/// attributes name, which stands alone.
pub open spec fn field_type(
    r: Resolver,
    attrs: Seq<String>,
    declared: TypeView,
    ambient: Seq<TypeView>,
    origin: Seq<char>,
) -> Result<(TypeView, Seq<TypeView>), BuildErrorView> {
    match override_of(attrs) {
        Err(e) => Err(e),
        Ok(None) => Ok((declared, ambient)),
        Ok(Some(path)) => match named_type(r, path, origin) {
            Err(e) => Err(e),
            Ok(t) => Ok((t, Seq::empty())),
        },
    }
}

/// The name of an item; the empty name where it has none.
pub open spec fn item_name(item: Item) -> Seq<char> {
    match item.name {
        Some(n) => n@,
        None => Seq::empty(),
    }
}

/// The formats of the fields of `named`, in order.
pub open spec fn values_of(named: Seq<NamedFormatView>) -> Seq<FormatView> {
    Seq::new(named.len(), |i: int| named[i].value)
}

/// The payload shape of a variant with the unnamed payloads `formats`: one
/// payload is carried as it is, any other number as a tuple.
pub open spec fn unnamed_shape(formats: Seq<FormatView>) -> VariantShapeView {
    if formats.len() == 1 {
        VariantShapeView::NewType(formats[0])
    } else {
        VariantShapeView::Tuple(formats)
    }
}

/// The identifiers of `ids`, each present.
pub open spec fn all_present(ids: Seq<u32>) -> Seq<Option<u32>> {
    Seq::new(ids.len(), |i: int| Some(ids[i]))
}

/// The container for the two outcomes of a fallible call.
pub open spec fn fallible_container(ok: FormatView, err: FormatView) -> ContainerView {
    ContainerView::Enum(
        seq![
            NamedVariantView { name: "Ok"@, value: VariantShapeView::Tuple(seq![ok]) },
            NamedVariantView { name: "Err"@, value: VariantShapeView::Tuple(seq![err]) },
        ],
    )
}

/// What lowering `expr` gives.
///
/// `ambient` holds the generic arguments that surround the expression,
/// `origin` names the module from which identifiers are resolved, and `depth`
/// bounds how deep expressions may nest.
pub open spec fn lowered(
    r: Resolver,
    expr: TypeView,
    ambient: Seq<TypeView>,
    origin: Seq<char>,
    memo: Memo,
    depth: nat,
) -> Threaded<Seq<LoweredView>>
    decreases depth, 0nat, 0nat,
{
    let key = CacheKey { expr, ambient };
    if depth == 0 {
        failed(BuildErrorView::UnsupportedShape, memo)
    } else if memo.contains_key(key) && memo[key] is Cached {
        done(memo[key]->Cached_0, memo)
    } else {
        match expr {
            TypeView::OwnedIndirection(inner) => lowered_boxed(
                r,
                *inner,
                ambient,
                origin,
                memo,
                (depth - 1) as nat,
                key,
            ),
            TypeView::NamedPath { name, id, args } => {
                let base = last_segment(name);
                if base == "Box"@ {
                    if args.len() == 1 {
                        lowered_boxed(r, args[0], ambient, origin, memo, (depth - 1) as nat, key)
                    } else {
                        failed(BuildErrorView::UnsupportedShape, memo)
                    }
                } else if base == "Vec"@ || base == "Option"@ {
                    if args.len() == 0 {
                        failed(BuildErrorView::UnsupportedShape, memo)
                    } else {
                        let o = lowered(
                            r,
                            args[0],
                            Seq::empty(),
                            origin,
                            memo,
                            (depth - 1) as nat,
                        );
                        match o.result {
                            Err(_) => o,
                            Ok(seq) => if seq.len() == 0 {
                                failed(BuildErrorView::UnsupportedShape, o.memo)
                            } else {
                                let inner = Box::new(seq.last().format);
                                let own = if base == "Vec"@ {
                                    FormatView::Sequence(inner)
                                } else {
                                    FormatView::Option(inner)
                                };
                                stored(done(seq + single(own), o.memo), key)
                            },
                        }
                    }
                } else if base == "String"@ {
                    stored(done(single(FormatView::Str), memo), key)
                } else if base == "Result"@ {
                    stored(lowered_fallible(r, args, origin, memo, (depth - 1) as nat), key)
                } else {
                    lowered_named(
                        r,
                        base,
                        id,
                        args,
                        ambient,
                        origin,
                        memo,
                        (depth - 1) as nat,
                        key,
                    )
                }
            },
            TypeView::GenericParameter(_) => if ambient.len() == 1 {
                stored(
                    lowered(r, ambient[0], Seq::empty(), origin, memo, (depth - 1) as nat),
                    key,
                )
            } else {
                failed(BuildErrorView::UnsupportedShape, memo)
            },
            TypeView::Primitive(name) => match primitive_format(name) {
                Some(f) => stored(done(single(f), memo), key),
                None => failed(BuildErrorView::UnsupportedShape, memo),
            },
            TypeView::FixedArray { elem, len } => match (*elem, unsigned(len)) {
                (TypeView::Primitive(p), Some(n)) => match primitive_format(p) {
                    Some(f) => stored(
                        done(single(FormatView::FixedArray { elem: Box::new(f), len: n }), memo),
                        key,
                    ),
                    None => failed(BuildErrorView::UnsupportedShape, memo),
                },
                _ => failed(BuildErrorView::UnsupportedShape, memo),
            },
            TypeView::Tuple(elems) => {
                let l = lowered_list(
                    r,
                    elems,
                    Seq::empty(),
                    origin,
                    memo,
                    (depth - 1) as nat,
                    0,
                    Seq::empty(),
                    Seq::empty(),
                );
                match l.result {
                    Err(e) => failed(e, l.memo),
                    Ok((acc, finals)) => stored(
                        done(acc + single(FormatView::Tuple(finals)), l.memo),
                        key,
                    ),
                }
            },
            TypeView::Reference(inner) => if *inner == TypeView::GenericParameter("Self"@) {
                stored(done(Seq::empty(), memo), key)
            } else {
                failed(BuildErrorView::UnsupportedShape, memo)
            },
            _ => failed(BuildErrorView::UnsupportedShape, memo),
        }
    }
}

/// What lowering an owned indirection to `inner` gives.
///
/// Where `inner` is a path that is being lowered already, the indirection
/// closes a cycle: the outcome is the reference to `inner` by its name alone,
/// and the memo stays as it is. The item behind the path is not looked up:
/// the name is the last segment of the path and, for a path with arguments,
/// the names of the formats that its arguments lower to. In every other case
/// the indirection is transparent: the outcome is the lowering of `inner`,
/// stored under `key`.
pub open spec fn lowered_boxed(
    r: Resolver,
    inner: TypeView,
    ambient: Seq<TypeView>,
    origin: Seq<char>,
    memo: Memo,
    depth: nat,
    key: CacheKey,
) -> Threaded<Seq<LoweredView>>
    decreases depth, 3nat, 0nat,
{
    let inner_key = CacheKey { expr: inner, ambient };
    if memo.contains_key(inner_key) && memo[inner_key] is Pending {
        match inner {
            TypeView::NamedPath { name, id, args } => {
                let named = lowered_list(
                    r,
                    args,
                    ambient,
                    origin,
                    memo,
                    depth,
                    0,
                    Seq::empty(),
                    Seq::empty(),
                );
                match named.result {
                    Err(e) => failed(e, memo),
                    Ok((_, finals)) => match monomorphized_name(last_segment(name), finals) {
                        None => failed(BuildErrorView::UnsupportedShape, memo),
                        Some(n) => done(single(FormatView::NamedType(n)), memo),
                    },
                }
            },
            _ => stored(lowered(r, inner, ambient, origin, memo, depth), key),
        }
    } else {
        stored(lowered(r, inner, ambient, origin, memo, depth), key)
    }
}

/// What lowering a fallible wrapper gives: the lowering of its success type
/// and of the error type of the pass, then an enum of two variants named
/// after both.
pub open spec fn lowered_fallible(
    r: Resolver,
    args: Seq<TypeView>,
    origin: Seq<char>,
    memo: Memo,
    depth: nat,
) -> Threaded<Seq<LoweredView>>
    decreases depth, 3nat, 0nat,
{
    if args.len() == 0 {
        failed(BuildErrorView::UnsupportedShape, memo)
    } else {
        match error_type(r) {
            Err(e) => failed(e, memo),
            Ok(err_type) => {
                let l = lowered_list(
                    r,
                    seq![args[0], err_type],
                    Seq::empty(),
                    origin,
                    memo,
                    depth,
                    0,
                    Seq::empty(),
                    Seq::empty(),
                );
                match l.result {
                    Err(e) => failed(e, l.memo),
                    Ok((acc, finals)) => if finals.len() != 2 {
                        failed(BuildErrorView::UnsupportedShape, l.memo)
                    } else {
                        match (short_name(finals[0]), short_name(finals[1])) {
                            (Some(a), Some(b)) => done(
                                acc.push(
                                    LoweredView {
                                        format: FormatView::NamedType(
                                            "Result_"@ + a + "_"@ + b,
                                        ),
                                        container: Some(
                                            fallible_container(finals[0], finals[1]),
                                        ),
                                    },
                                ),
                                l.memo,
                            ),
                            _ => failed(BuildErrorView::UnsupportedShape, l.memo),
                        }
                    },
                }
            },
        }
    }
}

/// What lowering a path to a named struct, enum or alias gives.
///
/// The item is resolved from `origin`; its own module is the origin of all
/// that it holds. An alias lowers to what it stands for. A struct or enum is
/// named by its base name and the names of its arguments; where it is being
/// lowered already only that name comes back, and the memo stays as it is.
/// Otherwise it is marked as pending, its fields or variants are lowered, and
/// the outcome ends with the definition of the container.
pub open spec fn lowered_named(
    r: Resolver,
    base: Seq<char>,
    id: u32,
    args: Seq<TypeView>,
    ambient: Seq<TypeView>,
    origin: Seq<char>,
    memo: Memo,
    depth: nat,
    key: CacheKey,
) -> Threaded<Seq<LoweredView>>
    decreases depth, 3nat, 0nat,
{
    match resolved_place(r.documents@, id, origin) {
        Err(e) => failed(e, memo),
        Ok(place) => {
            let item = r.item_at(place);
            match span_crate(item.span) {
                Err(e) => failed(e, memo),
                Ok(home) => match item.kind {
                    ItemKind::TypeAlias(target) => stored(
                        lowered(r, target@, ambient, home, memo, depth),
                        key,
                    ),
                    ItemKind::Struct(StructShape::Tuple) => failed(
                        BuildErrorView::UnsupportedShape,
                        memo,
                    ),
                    ItemKind::Struct(_) | ItemKind::Enum(_) => {
                        let named = lowered_list(
                            r,
                            args,
                            ambient,
                            home,
                            memo,
                            depth,
                            0,
                            Seq::empty(),
                            Seq::empty(),
                        );
                        if memo.contains_key(key) {
                            match named.result {
                                Err(e) => failed(e, memo),
                                Ok((_, finals)) => match monomorphized_name(base, finals) {
                                    None => failed(BuildErrorView::UnsupportedShape, memo),
                                    Some(name) => done(single(FormatView::NamedType(name)), memo),
                                },
                            }
                        } else {
                        match named.result {
                            Err(e) => failed(e, named.memo),
                            Ok((_, finals)) => match monomorphized_name(base, finals) {
                                None => failed(BuildErrorView::UnsupportedShape, named.memo),
                                Some(name) => {
                                    let marked = named.memo.insert(key, CacheStateView::Pending);
                                    let inside = field_ambient(args, ambient);
                                    let body = match item.kind {
                                        ItemKind::Enum(variants) => lowered_variants(
                                            r,
                                            variants@,
                                            inside,
                                            home,
                                            marked,
                                            depth,
                                            0,
                                            Seq::empty(),
                                            Seq::empty(),
                                        ),
                                        ItemKind::Struct(StructShape::Plain(fields)) => {
                                            as_struct(
                                                lowered_fields(
                                                    r,
                                                    all_present(fields@),
                                                    inside,
                                                    home,
                                                    marked,
                                                    depth,
                                                    0,
                                                    Seq::empty(),
                                                    Seq::empty(),
                                                ),
                                            )
                                        },
                                        _ => done(
                                            (Seq::empty(), ContainerView::Struct(Seq::empty())),
                                            marked,
                                        ),
                                    };
                                    match body.result {
                                        Err(e) => failed(e, body.memo),
                                        Ok((acc, container)) => stored(
                                            done(
                                                acc.push(
                                                    LoweredView {
                                                        format: FormatView::NamedType(name),
                                                        container: Some(container),
                                                    },
                                                ),
                                                body.memo,
                                            ),
                                            key,
                                        ),
                                    }
                                },
                            },
                        }
                        }
                    },
                    _ => failed(BuildErrorView::UnsupportedShape, memo),
                },
            }
        },
    }
}

/// The outcome of lowering fields, as the body of a struct.
pub open spec fn as_struct(o: Threaded<(Seq<LoweredView>, Seq<NamedFormatView>)>) -> Threaded<
    (Seq<LoweredView>, ContainerView),
> {
    match o.result {
        Err(e) => failed(e, o.memo),
        Ok((acc, named)) => done((acc, ContainerView::Struct(named)), o.memo),
    }
}

/// What lowering the expressions of `exprs` from index `i` on gives, one
/// after the other through the memo: the sequences in order after `acc`, and
/// the format of each expression after `finals`. An expression that lowers to
/// nothing has no format, which is a failure.
pub open spec fn lowered_list(
    r: Resolver,
    exprs: Seq<TypeView>,
    ambient: Seq<TypeView>,
    origin: Seq<char>,
    memo: Memo,
    depth: nat,
    i: int,
    acc: Seq<LoweredView>,
    finals: Seq<FormatView>,
) -> Threaded<(Seq<LoweredView>, Seq<FormatView>)>
    decreases depth, 1nat, exprs.len() - i,
{
    if i < 0 || i >= exprs.len() {
        done((acc, finals), memo)
    } else {
        let o = lowered(r, exprs[i], ambient, origin, memo, depth);
        match o.result {
            Err(e) => failed(e, o.memo),
            Ok(seq) => if seq.len() == 0 {
                failed(BuildErrorView::UnsupportedShape, o.memo)
            } else {
                lowered_list(
                    r,
                    exprs,
                    ambient,
                    origin,
                    o.memo,
                    depth,
                    i + 1,
                    acc + seq,
                    finals.push(seq.last().format),
                )
            },
        }
    }
}

/// What lowering the fields of `ids` from index `i` on gives: the sequences
/// in order after `acc`, and each field's name with its format after
/// `named`. A hidden field, and an item that is no field, is passed over.
pub open spec fn lowered_fields(
    r: Resolver,
    ids: Seq<Option<u32>>,
    ambient: Seq<TypeView>,
    origin: Seq<char>,
    memo: Memo,
    depth: nat,
    i: int,
    acc: Seq<LoweredView>,
    named: Seq<NamedFormatView>,
) -> Threaded<(Seq<LoweredView>, Seq<NamedFormatView>)>
    decreases depth, 1nat, ids.len() - i,
{
    if i < 0 || i >= ids.len() {
        done((acc, named), memo)
    } else {
        match ids[i] {
            None => lowered_fields(r, ids, ambient, origin, memo, depth, i + 1, acc, named),
            Some(id) => match resolved_place(r.documents@, id, origin) {
                Err(e) => failed(e, memo),
                Ok(place) => {
                    let item = r.item_at(place);
                    match item.kind {
                        ItemKind::StructField(declared) => match field_type(
                            r,
                            item.attrs@,
                            declared@,
                            ambient,
                            origin,
                        ) {
                            Err(e) => failed(e, memo),
                            Ok((effective, around)) => {
                                let o = lowered(r, effective, around, origin, memo, depth);
                                match o.result {
                                    Err(e) => failed(e, o.memo),
                                    Ok(seq) => if seq.len() == 0 {
                                        failed(BuildErrorView::UnsupportedShape, o.memo)
                                    } else {
                                        lowered_fields(
                                            r,
                                            ids,
                                            ambient,
                                            origin,
                                            o.memo,
                                            depth,
                                            i + 1,
                                            acc + seq,
                                            named.push(
                                                NamedFormatView {
                                                    name: item_name(item),
                                                    value: seq.last().format,
                                                },
                                            ),
                                        )
                                    },
                                }
                            },
                        },
                        _ => lowered_fields(
                            r,
                            ids,
                            ambient,
                            origin,
                            memo,
                            depth,
                            i + 1,
                            acc,
                            named,
                        ),
                    }
                },
            },
        }
    }
}

/// What lowering the variants of `ids` from index `i` on gives: the
/// sequences of their payloads in order after `acc`, and the enum made of
/// `variants` and the variants lowered here, in declaration order.
pub open spec fn lowered_variants(
    r: Resolver,
    ids: Seq<u32>,
    ambient: Seq<TypeView>,
    origin: Seq<char>,
    memo: Memo,
    depth: nat,
    i: int,
    acc: Seq<LoweredView>,
    variants: Seq<NamedVariantView>,
) -> Threaded<(Seq<LoweredView>, ContainerView)>
    decreases depth, 2nat, ids.len() - i,
{
    if i < 0 || i >= ids.len() {
        done((acc, ContainerView::Enum(variants)), memo)
    } else {
        match resolved_place(r.documents@, ids[i], origin) {
            Err(e) => failed(e, memo),
            Ok(place) => {
                let item = r.item_at(place);
                match item.kind {
                    ItemKind::Variant(VariantPayload::Plain) => lowered_variants(
                        r,
                        ids,
                        ambient,
                        origin,
                        memo,
                        depth,
                        i + 1,
                        acc,
                        variants.push(
                            NamedVariantView {
                                name: item_name(item),
                                value: VariantShapeView::Unit,
                            },
                        ),
                    ),
                    ItemKind::Variant(VariantPayload::Tuple(fields)) => {
                        let f = lowered_fields(
                            r,
                            fields@,
                            ambient,
                            origin,
                            memo,
                            depth,
                            0,
                            acc,
                            Seq::empty(),
                        );
                        match f.result {
                            Err(e) => failed(e, f.memo),
                            Ok((seq, named)) => lowered_variants(
                                r,
                                ids,
                                ambient,
                                origin,
                                f.memo,
                                depth,
                                i + 1,
                                seq,
                                variants.push(
                                    NamedVariantView {
                                        name: item_name(item),
                                        value: unnamed_shape(values_of(named)),
                                    },
                                ),
                            ),
                        }
                    },
                    ItemKind::Variant(VariantPayload::Struct(fields)) => {
                        let f = lowered_fields(
                            r,
                            all_present(fields@),
                            ambient,
                            origin,
                            memo,
                            depth,
                            0,
                            acc,
                            Seq::empty(),
                        );
                        match f.result {
                            Err(e) => failed(e, f.memo),
                            Ok((seq, named)) => lowered_variants(
                                r,
                                ids,
                                ambient,
                                origin,
                                f.memo,
                                depth,
                                i + 1,
                                seq,
                                variants.push(
                                    NamedVariantView {
                                        name: item_name(item),
                                        value: VariantShapeView::Struct(named),
                                    },
                                ),
                            ),
                        }
                    },
                    _ => failed(BuildErrorView::UnsupportedShape, memo),
                }
            },
        }
    }
}

} // verus!
