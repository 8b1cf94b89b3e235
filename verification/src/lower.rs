//! The executable type lowering engine.
//!
//! Each function here computes what the spec function of the same role in
//! `lowering` states, on the same memo.

use crate::cache::{CacheKey, CacheState, CacheStateView, TypeCache};
use crate::document::{
    lemma_first_where_absent, lemma_first_where_found, ItemKind, StructShape, SummaryKind,
    VariantPayload,
};
use crate::error::{BuildError, BuildErrorView};
use crate::format::{
    duplicate_lowered, lemma_seq_view_add, lemma_seq_view_push, seq_view, ContainerFormat,
    ContainerView, Format, FormatView, Lowered, LoweredView, NamedFormat, NamedFormatView,
    NamedVariant, VariantShape,
};
use crate::lowering::{
    all_present, attribute_end, error_type, fallible_container, field_ambient, field_type,
    lowered, lowered_boxed, lowered_fallible, lowered_fields, lowered_list, lowered_named,
    lowered_variants, monomorphized_name, named_path, named_type, names_path, override_of,
    primitive_format, single, text_type, unnamed_shape, values_of,
};
use crate::resolver::{crate_from_span, Resolver};
use crate::text::{name_without_path, owner_path, parse_unsigned, same_text, strip_affixes};
use crate::types::{lemma_models, models, TypeExpression, TypeView};
use vstd::prelude::*;

verus! {

/// How deep type expressions may nest in a pass started by `lower_type`.
pub const DEPTH_LIMIT: usize = 256;

/// Whether `got` is the outcome `want`.
pub open spec fn is_outcome(
    got: Result<Vec<Lowered>, BuildError>,
    want: Result<Seq<LoweredView>, BuildErrorView>,
) -> bool {
    match got {
        Ok(v) => want == Ok::<Seq<LoweredView>, BuildErrorView>(seq_view(v@)),
        Err(e) => want == Err::<Seq<LoweredView>, BuildErrorView>(e@),
    }
}

/// Whether `got` is the outcome `want` of lowering a list.
pub open spec fn is_list_outcome(
    got: Result<(Vec<Lowered>, Vec<Format>), BuildError>,
    want: Result<(Seq<LoweredView>, Seq<FormatView>), BuildErrorView>,
) -> bool {
    match got {
        Ok((v, f)) => want == Ok::<(Seq<LoweredView>, Seq<FormatView>), BuildErrorView>(
            (seq_view(v@), seq_view(f@)),
        ),
        Err(e) => want == Err::<(Seq<LoweredView>, Seq<FormatView>), BuildErrorView>(e@),
    }
}

/// Whether `got` is the outcome `want` of lowering fields.
pub open spec fn is_fields_outcome(
    got: Result<(Vec<Lowered>, Vec<NamedFormat>), BuildError>,
    want: Result<(Seq<LoweredView>, Seq<NamedFormatView>), BuildErrorView>,
) -> bool {
    match got {
        Ok((v, f)) => want == Ok::<(Seq<LoweredView>, Seq<NamedFormatView>), BuildErrorView>(
            (seq_view(v@), seq_view(f@)),
        ),
        Err(e) => want == Err::<(Seq<LoweredView>, Seq<NamedFormatView>), BuildErrorView>(e@),
    }
}

/// Whether `got` is the outcome `want` of lowering the body of a container.
pub open spec fn is_body_outcome(
    got: Result<(Vec<Lowered>, ContainerFormat), BuildError>,
    want: Result<(Seq<LoweredView>, ContainerView), BuildErrorView>,
) -> bool {
    match got {
        Ok((v, c)) => want == Ok::<(Seq<LoweredView>, ContainerView), BuildErrorView>(
            (seq_view(v@), c@),
        ),
        Err(e) => want == Err::<(Seq<LoweredView>, ContainerView), BuildErrorView>(e@),
    }
}

/// The format of the built-in scalar `name`.
pub fn primitive(name: &str) -> (r: Option<Format>)
    ensures
        match r {
            Some(f) => primitive_format(name@) == Some(f@),
            None => primitive_format(name@) is None,
        },
{
    if same_text(name, "i64") {
        Some(Format::I64)
    } else if same_text(name, "i32") {
        Some(Format::I32)
    } else if same_text(name, "i16") {
        Some(Format::I16)
    } else if same_text(name, "i8") {
        Some(Format::I8)
    } else if same_text(name, "bool") {
        Some(Format::Bool)
    } else if same_text(name, "f64") {
        Some(Format::F64)
    } else if same_text(name, "f32") {
        Some(Format::F32)
    } else if same_text(name, "u8") {
        Some(Format::U8)
    } else if same_text(name, "u16") {
        Some(Format::U16)
    } else if same_text(name, "u32") {
        Some(Format::U32)
    } else if same_text(name, "u64") {
        Some(Format::U64)
    } else if same_text(name, "usize") {
        Some(Format::U64)
    } else if same_text(name, "isize") {
        Some(Format::I64)
    } else {
        None
    }
}

/// The name of a container with the base name `base` and arguments whose
/// formats are `finals`.
pub fn monomorphized(base: &str, finals: &Vec<Format>) -> (r: Option<String>)
    ensures
        match r {
            Some(n) => monomorphized_name(base@, seq_view(finals@)) == Some(n@),
            None => monomorphized_name(base@, seq_view(finals@)) is None,
        },
{
    let mut name = String::from_str(base);
    let mut i: usize = 0;
    let ghost all = seq_view(finals@);
    assert(all.take(0) =~= Seq::empty());
    while i < finals.len()
        invariant
            i <= finals@.len(),
            all == seq_view(finals@),
            monomorphized_name(base@, all.take(i as int)) == Some(name@),
        decreases finals@.len() - i,
    {
        assert(all.take(i + 1).drop_last() =~= all.take(i as int));
        assert(all.take(i + 1).last() == finals@[i as int]@);
        match finals[i].to_type_name() {
            Some(n) => {
                name.append("_");
                name.append(n.as_str());
            },
            None => {
                proof {
                    lemma_name_needs_every_prefix(base@, all, i + 1);
                }
                return None;
            },
        }
        i += 1;
    }
    assert(all.take(i as int) =~= all);
    Some(name)
}

/// Where the formats up to `i` have no name, the whole list has none.
pub proof fn lemma_name_needs_every_prefix(base: Seq<char>, finals: Seq<FormatView>, i: int)
    requires
        0 <= i <= finals.len(),
        monomorphized_name(base, finals.take(i)) is None,
    ensures
        monomorphized_name(base, finals) is None,
    decreases finals.len(),
{
    if i == finals.len() {
        assert(finals.take(i) =~= finals);
    } else {
        assert(finals.drop_last().take(i) =~= finals.take(i));
        lemma_name_needs_every_prefix(base, finals.drop_last(), i);
    }
}

/// The path that the first attribute of `attrs` starting with `start` names.
pub fn find_named_path(attrs: &Vec<String>, start: &str) -> (r: Option<String>)
    ensures
        match r {
            Some(p) => named_path(attrs@, start@) == Some(p@),
            None => named_path(attrs@, start@) is None,
        },
{
    let mut j: usize = 0;
    proof {
        reveal_strlit("\")]");
    }
    while j < attrs.len()
        invariant
            j <= attrs@.len(),
            "\")]"@ == attribute_end(),
            forall|k: int| 0 <= k < j ==> !names_path(start@)(attrs@[k]),
        decreases attrs@.len() - j,
    {
        match strip_affixes(attrs[j].as_str(), start, "\")]") {
            Some(p) => {
                proof {
                    lemma_first_where_found(attrs@, names_path(start@), j as int);
                }
                return Some(p);
            },
            None => {},
        }
        j += 1;
    }
    proof {
        lemma_first_where_absent(attrs@, names_path(start@));
    }
    None
}

/// The helper type that the attributes of a field put in place of its
/// declared type, if any.
pub fn field_override(attrs: &Vec<String>) -> (r: Result<Option<String>, BuildError>)
    ensures
        match r {
            Ok(Some(p)) => override_of(attrs@) == Ok::<Option<Seq<char>>, BuildErrorView>(
                Some(p@),
            ),
            Ok(None) => override_of(attrs@) == Ok::<Option<Seq<char>>, BuildErrorView>(None),
            Err(e) => override_of(attrs@) == Err::<Option<Seq<char>>, BuildErrorView>(e@),
        },
{
    match find_named_path(attrs, "#[serde(with = \"") {
        Some(p) => {
            return Ok(Some(p));
        },
        None => {},
    }
    let ser = find_named_path(attrs, "#[serde(serialize_with = \"");
    let de = find_named_path(attrs, "#[serde(deserialize_with = \"");
    match (ser, de) {
        (None, None) => Ok(None),
        (Some(s), Some(d)) => {
            match (owner_path(s.as_str()), owner_path(d.as_str())) {
                (Some(a), Some(b)) => {
                    if a == b {
                        Ok(Some(a))
                    } else {
                        Err(BuildError::ConfigurationMismatch)
                    }
                },
                _ => Err(BuildError::ConfigurationMismatch),
            }
        },
        _ => Err(BuildError::ConfigurationMismatch),
    }
}

/// The expression for plain text.
pub fn text_expression() -> (r: TypeExpression)
    ensures
        r@ == text_type(),
{
    let args: Vec<TypeExpression> = Vec::new();
    assert(models(args@) =~= Seq::empty());
    TypeExpression::NamedPath { name: String::from_str("String"), id: 0, args }
}

/// The expression that a type named by its path stands for.
pub fn named_type_expression(resolver: &Resolver, path: &str, origin: &str) -> (r: Result<
    TypeExpression,
    BuildError,
>)
    ensures
        match r {
            Ok(t) => named_type(*resolver, path@, origin@) == Ok::<TypeView, BuildErrorView>(t@),
            Err(e) => named_type(*resolver, path@, origin@) == Err::<TypeView, BuildErrorView>(
                e@,
            ),
        },
{
    let short = name_without_path(path);
    if same_text(short.as_str(), "String") {
        Ok(text_expression())
    } else {
        resolver.resolve_by_path(path, origin, SummaryKind::Struct)
    }
}

/// The expression for the error type of the pass.
pub fn error_type_expression(resolver: &Resolver) -> (r: Result<TypeExpression, BuildError>)
    ensures
        match r {
            Ok(t) => error_type(*resolver) == Ok::<TypeView, BuildErrorView>(t@),
            Err(e) => error_type(*resolver) == Err::<TypeView, BuildErrorView>(e@),
        },
{
    if same_text(resolver.error_type.as_str(), "String") {
        return Ok(text_expression());
    }
    if resolver.documents.len() == 0 {
        return Err(BuildError::UnknownIdentifier);
    }
    match resolver.documents[0].find_short_name(resolver.error_type.as_str()) {
        Some(j) => {
            let args: Vec<TypeExpression> = Vec::new();
            assert(models(args@) =~= Seq::empty());
            Ok(
                TypeExpression::NamedPath {
                    name: resolver.error_type.clone(),
                    id: resolver.documents[0].items[j].id,
                    args,
                },
            )
        },
        None => Err(BuildError::UnknownIdentifier),
    }
}

/// The identifiers of `ids`, each present.
pub fn present(ids: &Vec<u32>) -> (r: Vec<Option<u32>>)
    ensures
        r@ == all_present(ids@),
{
    let mut out: Vec<Option<u32>> = Vec::new();
    let mut i: usize = 0;
    while i < ids.len()
        invariant
            i <= ids@.len(),
            out@ == all_present(ids@).take(i as int),
        decreases ids@.len() - i,
    {
        out.push(Some(ids[i]));
        i += 1;
        assert(out@ =~= all_present(ids@).take(i as int));
    }
    assert(all_present(ids@).take(i as int) =~= all_present(ids@));
    out
}

/// The formats of the fields of `named`, in order.
pub fn field_values(named: &Vec<NamedFormat>) -> (r: Vec<Format>)
    ensures
        seq_view(r@) == values_of(seq_view(named@)),
{
    let mut out: Vec<Format> = Vec::new();
    let mut i: usize = 0;
    while i < named.len()
        invariant
            i <= named@.len(),
            out@.len() == i,
            forall|j: int| 0 <= j < i ==> out@[j]@ == named@[j].value@,
        decreases named@.len() - i,
    {
        out.push(named[i].value.duplicate());
        i += 1;
    }
    assert(seq_view(out@) =~= values_of(seq_view(named@)));
    out
}

/// Stores `seq` in the memo as the lowering of `expr` under `ambient`.
fn store(
    memo: &mut TypeCache,
    expr: &TypeExpression,
    ambient: &Vec<TypeExpression>,
    seq: &Vec<Lowered>,
)
    ensures
        final(memo)@ == old(memo)@.insert(
            CacheKey { expr: expr@, ambient: models(ambient@) },
            CacheStateView::Cached(seq_view(seq@)),
        ),
{
    memo.set(expr, ambient, CacheState::Cached(duplicate_lowered(seq)));
}

/// The sequence of the one format `f`.
fn one(f: Format) -> (r: Vec<Lowered>)
    ensures
        seq_view(r@) == single(f@),
{
    let mut out: Vec<Lowered> = Vec::new();
    out.push(Lowered { format: f, container: None });
    assert(seq_view(out@) =~= single(f@));
    out
}

/// Lowers `expr`.
///
/// `ambient` holds the generic arguments that surround the expression,
/// `origin` names the module from which identifiers are resolved, and `depth`
/// bounds how deep expressions may nest.
pub fn lower(
    resolver: &Resolver,
    expr: &TypeExpression,
    ambient: &Vec<TypeExpression>,
    origin: &str,
    memo: &mut TypeCache,
    depth: usize,
) -> (r: Result<Vec<Lowered>, BuildError>)
    ensures
        final(memo)@ == lowered(
            *resolver,
            expr@,
            models(ambient@),
            origin@,
            old(memo)@,
            depth as nat,
        ).memo,
        is_outcome(
            r,
            lowered(*resolver, expr@, models(ambient@), origin@, old(memo)@, depth as nat).result,
        ),
    decreases depth, 0nat, 1nat,
{
    if depth == 0 {
        return Err(BuildError::UnsupportedShape);
    }
    match memo.cached(expr, ambient) {
        Some(v) => {
            return Ok(v);
        },
        None => {},
    }
    match expr {
        TypeExpression::OwnedIndirection(inner) => lower_boxed(
            resolver,
            inner,
            ambient,
            origin,
            memo,
            depth - 1,
            expr,
        ),
        TypeExpression::NamedPath { name, id, args } => lower_path(
            resolver,
            expr,
            name,
            *id,
            args,
            ambient,
            origin,
            memo,
            depth,
        ),
        _ => lower_plain(resolver, expr, ambient, origin, memo, depth),
    }
}

/// Lowers the path `whole`, which has the name `name`, the identifier `id`
/// and the arguments `args`, and which the memo holds no lowering of.
fn lower_path(
    resolver: &Resolver,
    whole: &TypeExpression,
    name: &String,
    id: u32,
    args: &Vec<TypeExpression>,
    ambient: &Vec<TypeExpression>,
    origin: &str,
    memo: &mut TypeCache,
    depth: usize,
) -> (r: Result<Vec<Lowered>, BuildError>)
    requires
        depth > 0,
        whole@ == (TypeView::NamedPath { name: name@, id: id, args: models(args@) }),
        !(old(memo)@.contains_key(CacheKey { expr: whole@, ambient: models(ambient@) })
            && old(memo)@[CacheKey { expr: whole@, ambient: models(ambient@) }] is Cached),
    ensures
        final(memo)@ == lowered(
            *resolver,
            whole@,
            models(ambient@),
            origin@,
            old(memo)@,
            depth as nat,
        ).memo,
        is_outcome(
            r,
            lowered(*resolver, whole@, models(ambient@), origin@, old(memo)@, depth as nat).result,
        ),
    decreases depth, 0nat, 0nat,
{
    let expr = whole;
    let empty: Vec<TypeExpression> = Vec::new();
    assert(models(empty@) =~= Seq::empty());
    proof {
        lemma_models(ambient@);
        lemma_models(args@);
    }
    let base = name_without_path(name.as_str());
    let is_vec = same_text(base.as_str(), "Vec");
    if same_text(base.as_str(), "Box") {
        if args.len() == 1 {
            lower_boxed(resolver, &args[0], ambient, origin, memo, depth - 1, expr)
        } else {
            Err(BuildError::UnsupportedShape)
        }
    } else if is_vec || same_text(base.as_str(), "Option") {
        if args.len() == 0 {
            return Err(BuildError::UnsupportedShape);
        }
        match lower(resolver, &args[0], &empty, origin, memo, depth - 1) {
            Err(e) => Err(e),
            Ok(seq) => {
                if seq.len() == 0 {
                    return Err(BuildError::UnsupportedShape);
                }
                let mut seq = seq;
                let ghost before = seq_view(seq@);
                let inner = seq[seq.len() - 1].format.duplicate();
                let own = if is_vec {
                    Format::Sequence(Box::new(inner))
                } else {
                    Format::Option(Box::new(inner))
                };
                seq.push(Lowered { format: own, container: None });
                assert(seq_view(seq@) =~= before + single(own@));
                store(memo, expr, ambient, &seq);
                Ok(seq)
            },
        }
    } else if same_text(base.as_str(), "String") {
        let seq = one(Format::Str);
        store(memo, expr, ambient, &seq);
        Ok(seq)
    } else if same_text(base.as_str(), "Result") {
        match lower_fallible(resolver, args, origin, memo, depth - 1) {
            Err(e) => Err(e),
            Ok(seq) => {
                store(memo, expr, ambient, &seq);
                Ok(seq)
            },
        }
    } else {
        lower_named(resolver, base.as_str(), id, args, ambient, origin, memo, depth - 1, expr)
    }
}

/// Lowers `expr`, which is neither a path nor an owned indirection, and which
/// the memo holds no lowering of.
fn lower_plain(
    resolver: &Resolver,
    expr: &TypeExpression,
    ambient: &Vec<TypeExpression>,
    origin: &str,
    memo: &mut TypeCache,
    depth: usize,
) -> (r: Result<Vec<Lowered>, BuildError>)
    requires
        depth > 0,
        !(expr@ is NamedPath),
        !(expr@ is OwnedIndirection),
        !(old(memo)@.contains_key(CacheKey { expr: expr@, ambient: models(ambient@) })
            && old(memo)@[CacheKey { expr: expr@, ambient: models(ambient@) }] is Cached),
    ensures
        final(memo)@ == lowered(
            *resolver,
            expr@,
            models(ambient@),
            origin@,
            old(memo)@,
            depth as nat,
        ).memo,
        is_outcome(
            r,
            lowered(*resolver, expr@, models(ambient@), origin@, old(memo)@, depth as nat).result,
        ),
    decreases depth, 0nat, 0nat,
{
    let empty: Vec<TypeExpression> = Vec::new();
    assert(models(empty@) =~= Seq::empty());
    proof {
        lemma_models(ambient@);
    }
    match expr {
        TypeExpression::GenericParameter(_) => {
            if ambient.len() == 1 {
                match lower(resolver, &ambient[0], &empty, origin, memo, depth - 1) {
                    Err(e) => {
                        return Err(e);
                    },
                    Ok(seq) => {
                        store(memo, expr, ambient, &seq);
                        return Ok(seq);
                    },
                }
            } else {
                return Err(BuildError::UnsupportedShape);
            }
        },
        TypeExpression::Primitive(name) => match primitive(name.as_str()) {
            Some(f) => {
                let seq = one(f);
                store(memo, expr, ambient, &seq);
                return Ok(seq);
            },
            None => {
                return Err(BuildError::UnsupportedShape);
            },
        },
        TypeExpression::FixedArray { elem, len } => {
            let n = parse_unsigned(len.as_str());
            assert(expr@ == TypeView::FixedArray { elem: Box::new((**elem)@), len: len@ });
            match (&**elem, n) {
                (TypeExpression::Primitive(p), Some(n)) => match primitive(p.as_str()) {
                    Some(f) => {
                        let seq = one(Format::FixedArray { elem: Box::new(f), len: n });
                        store(memo, expr, ambient, &seq);
                        return Ok(seq);
                    },
                    None => {
                        return Err(BuildError::UnsupportedShape);
                    },
                },
                _ => {
                    return Err(BuildError::UnsupportedShape);
                },
            }
        },
        TypeExpression::Tuple(elems) => {
            proof {
                lemma_models(elems@);
            }
            match lower_list(resolver, elems, &empty, origin, memo, depth - 1) {
                Err(e) => {
                    return Err(e);
                },
                Ok((acc, finals)) => {
                    let mut seq = acc;
                    let ghost before = seq_view(seq@);
                    let own = Format::Tuple(finals);
                    assert(own@->Tuple_0 =~= seq_view(finals@));
                    seq.push(Lowered { format: own, container: None });
                    assert(seq_view(seq@) =~= before + single(own@));
                    store(memo, expr, ambient, &seq);
                    return Ok(seq);
                },
            }
        },
        TypeExpression::Reference(inner) => {
            assert(expr@ == TypeView::Reference(Box::new((**inner)@)));
            let erased = match &**inner {
                TypeExpression::GenericParameter(p) => same_text(p.as_str(), "Self"),
                _ => false,
            };
            if erased {
                let seq: Vec<Lowered> = Vec::new();
                assert(seq_view(seq@) =~= Seq::empty());
                store(memo, expr, ambient, &seq);
                return Ok(seq);
            } else {
                return Err(BuildError::UnsupportedShape);
            }
        },
        _ => {
            return Err(BuildError::UnsupportedShape);
        },
    }
}

/// Lowers an owned indirection to `inner`; `whole` is the expression of the
/// indirection itself. An indirection to a path that is being lowered is
/// answered by the name of that path: the item behind it is not looked up,
/// and the memo stays as it is.
pub fn lower_boxed(
    resolver: &Resolver,
    inner: &TypeExpression,
    ambient: &Vec<TypeExpression>,
    origin: &str,
    memo: &mut TypeCache,
    depth: usize,
    whole: &TypeExpression,
) -> (r: Result<Vec<Lowered>, BuildError>)
    ensures
        final(memo)@ == lowered_boxed(
            *resolver,
            inner@,
            models(ambient@),
            origin@,
            old(memo)@,
            depth as nat,
            CacheKey { expr: whole@, ambient: models(ambient@) },
        ).memo,
        is_outcome(
            r,
            lowered_boxed(
                *resolver,
                inner@,
                models(ambient@),
                origin@,
                old(memo)@,
                depth as nat,
                CacheKey { expr: whole@, ambient: models(ambient@) },
            ).result,
        ),
    decreases depth, 3nat, 0nat,
{
    if memo.is_pending(inner, ambient) {
        match inner {
            TypeExpression::NamedPath { name, id: _, args } => {
                proof {
                    lemma_models(args@);
                }
                // The arguments are lowered for their names only: what they
                // add to the memo is left behind with the copy.
                let mut scratch = memo.duplicate();
                let finals = match lower_list(resolver, args, ambient, origin, &mut scratch, depth) {
                    Err(e) => {
                        return Err(e);
                    },
                    Ok((_, finals)) => finals,
                };
                let base = name_without_path(name.as_str());
                return match monomorphized(base.as_str(), &finals) {
                    None => Err(BuildError::UnsupportedShape),
                    Some(n) => Ok(one(Format::NamedType(n))),
                };
            },
            _ => {},
        }
    }
    match lower(resolver, inner, ambient, origin, memo, depth) {
        Err(e) => Err(e),
        Ok(seq) => {
            store(memo, whole, ambient, &seq);
            Ok(seq)
        },
    }
}

/// Lowers a fallible wrapper with the arguments `args`.
pub fn lower_fallible(
    resolver: &Resolver,
    args: &Vec<TypeExpression>,
    origin: &str,
    memo: &mut TypeCache,
    depth: usize,
) -> (r: Result<Vec<Lowered>, BuildError>)
    ensures
        final(memo)@ == lowered_fallible(
            *resolver,
            models(args@),
            origin@,
            old(memo)@,
            depth as nat,
        ).memo,
        is_outcome(
            r,
            lowered_fallible(*resolver, models(args@), origin@, old(memo)@, depth as nat).result,
        ),
    decreases depth, 3nat, 0nat,
{
    if args.len() == 0 {
        return Err(BuildError::UnsupportedShape);
    }
    let err_type = match error_type_expression(resolver) {
        Err(e) => {
            return Err(e);
        },
        Ok(t) => t,
    };
    let empty: Vec<TypeExpression> = Vec::new();
    assert(models(empty@) =~= Seq::empty());
    let mut pair: Vec<TypeExpression> = Vec::new();
    pair.push(args[0].duplicate());
    pair.push(err_type);
    assert(models(pair@) =~= seq![args@[0]@, err_type@]);
    match lower_list(resolver, &pair, &empty, origin, memo, depth) {
        Err(e) => Err(e),
        Ok((acc, finals)) => {
            if finals.len() != 2 {
                return Err(BuildError::UnsupportedShape);
            }
            match (finals[0].to_type_name(), finals[1].to_type_name()) {
                (Some(a), Some(b)) => {
                    let mut name = String::from_str("Result_");
                    name.append(a.as_str());
                    name.append("_");
                    name.append(b.as_str());
                    let mut ok_payload: Vec<Format> = Vec::new();
                    ok_payload.push(finals[0].duplicate());
                    let mut err_payload: Vec<Format> = Vec::new();
                    err_payload.push(finals[1].duplicate());
                    assert(seq_view(ok_payload@) =~= seq![finals@[0]@]);
                    assert(seq_view(err_payload@) =~= seq![finals@[1]@]);
                    let mut variants: Vec<NamedVariant> = Vec::new();
                    variants.push(
                        NamedVariant {
                            name: String::from_str("Ok"),
                            value: VariantShape::Tuple(ok_payload),
                        },
                    );
                    variants.push(
                        NamedVariant {
                            name: String::from_str("Err"),
                            value: VariantShape::Tuple(err_payload),
                        },
                    );
                    let container = ContainerFormat::Enum(variants);
                    assert(container@->Enum_0 =~= fallible_container(
                        finals@[0]@,
                        finals@[1]@,
                    )->Enum_0);
                    let mut seq = acc;
                    let ghost before = seq_view(seq@);
                    let last = Lowered {
                        format: Format::NamedType(name),
                        container: Some(container),
                    };
                    seq.push(last);
                    assert(seq_view(seq@) =~= before.push(last@));
                    Ok(seq)
                },
                _ => Err(BuildError::UnsupportedShape),
            }
        },
    }
}

/// Lowers a path to a named struct, enum or alias; `whole` is the expression
/// of the path itself and `base` its name without the path.
pub fn lower_named(
    resolver: &Resolver,
    base: &str,
    id: u32,
    args: &Vec<TypeExpression>,
    ambient: &Vec<TypeExpression>,
    origin: &str,
    memo: &mut TypeCache,
    depth: usize,
    whole: &TypeExpression,
) -> (r: Result<Vec<Lowered>, BuildError>)
    ensures
        final(memo)@ == lowered_named(
            *resolver,
            base@,
            id,
            models(args@),
            models(ambient@),
            origin@,
            old(memo)@,
            depth as nat,
            CacheKey { expr: whole@, ambient: models(ambient@) },
        ).memo,
        is_outcome(
            r,
            lowered_named(
                *resolver,
                base@,
                id,
                models(args@),
                models(ambient@),
                origin@,
                old(memo)@,
                depth as nat,
                CacheKey { expr: whole@, ambient: models(ambient@) },
            ).result,
        ),
    decreases depth, 3nat, 0nat,
{
    let place = match resolver.resolve_by_id(id, origin) {
        Err(e) => {
            return Err(e);
        },
        Ok(p) => p,
    };
    let item = resolver.item(place);
    let home = match crate_from_span(item) {
        Err(e) => {
            return Err(e);
        },
        Ok(h) => h,
    };
    let empty: Vec<TypeExpression> = Vec::new();
    assert(models(empty@) =~= Seq::empty());
    match &item.kind {
        ItemKind::TypeAlias(target) => {
            match lower(resolver, target, ambient, home.as_str(), memo, depth) {
                Err(e) => Err(e),
                Ok(seq) => {
                    store(memo, whole, ambient, &seq);
                    Ok(seq)
                },
            }
        },
        ItemKind::Struct(StructShape::Tuple) => Err(BuildError::UnsupportedShape),
        ItemKind::Struct(_) | ItemKind::Enum(_) => {
            if memo.contains(whole, ambient) {
                // The arguments are lowered for their names only: what they
                // add to the memo is left behind with the copy.
                let mut scratch = memo.duplicate();
                let finals = match lower_list(
                    resolver,
                    args,
                    ambient,
                    home.as_str(),
                    &mut scratch,
                    depth,
                ) {
                    Err(e) => {
                        return Err(e);
                    },
                    Ok((_, finals)) => finals,
                };
                return match monomorphized(base, &finals) {
                    None => Err(BuildError::UnsupportedShape),
                    Some(name) => Ok(one(Format::NamedType(name))),
                };
            }
            let finals = match lower_list(resolver, args, ambient, home.as_str(), memo, depth) {
                Err(e) => {
                    return Err(e);
                },
                Ok((_, finals)) => finals,
            };
            let name = match monomorphized(base, &finals) {
                None => {
                    return Err(BuildError::UnsupportedShape);
                },
                Some(n) => n,
            };
            memo.set(whole, ambient, CacheState::Pending);
            let generic_arg = args.len() == 1 && match &args[0] {
                TypeExpression::GenericParameter(_) => true,
                _ => false,
            };
            let inside: &Vec<TypeExpression> = if args.len() == 0 {
                &empty
            } else if ambient.len() == 1 && generic_arg {
                ambient
            } else {
                args
            };
            assert(models(inside@) == field_ambient(models(args@), models(ambient@)));
            let body: Result<(Vec<Lowered>, ContainerFormat), BuildError> = match &item.kind {
                ItemKind::Enum(variants) => lower_variants(
                    resolver,
                    variants,
                    inside,
                    home.as_str(),
                    memo,
                    depth,
                ),
                ItemKind::Struct(StructShape::Plain(fields)) => {
                    let ids = present(fields);
                    let start: Vec<Lowered> = Vec::new();
                    assert(seq_view(start@) =~= Seq::empty());
                    match lower_fields(resolver, &ids, inside, home.as_str(), memo, depth, start) {
                        Err(e) => Err(e),
                        Ok((acc, named)) => Ok((acc, ContainerFormat::Struct(named))),
                    }
                },
                _ => {
                    let acc: Vec<Lowered> = Vec::new();
                    let none: Vec<NamedFormat> = Vec::new();
                    assert(seq_view(acc@) =~= Seq::empty());
                    assert(seq_view(none@) =~= Seq::empty());
                    Ok((acc, ContainerFormat::Struct(none)))
                },
            };
            match body {
                Err(e) => Err(e),
                Ok((acc, container)) => {
                    let mut seq = acc;
                    let ghost before = seq_view(seq@);
                    let last = Lowered {
                        format: Format::NamedType(name),
                        container: Some(container),
                    };
                    seq.push(last);
                    assert(seq_view(seq@) =~= before.push(last@));
                    store(memo, whole, ambient, &seq);
                    Ok(seq)
                },
            }
        },
        _ => Err(BuildError::UnsupportedShape),
    }
}

/// Lowers the expressions of `exprs`, one after the other through the memo.
pub fn lower_list(
    resolver: &Resolver,
    exprs: &Vec<TypeExpression>,
    ambient: &Vec<TypeExpression>,
    origin: &str,
    memo: &mut TypeCache,
    depth: usize,
) -> (r: Result<(Vec<Lowered>, Vec<Format>), BuildError>)
    ensures
        final(memo)@ == lowered_list(
            *resolver,
            models(exprs@),
            models(ambient@),
            origin@,
            old(memo)@,
            depth as nat,
            0,
            Seq::empty(),
            Seq::empty(),
        ).memo,
        is_list_outcome(
            r,
            lowered_list(
                *resolver,
                models(exprs@),
                models(ambient@),
                origin@,
                old(memo)@,
                depth as nat,
                0,
                Seq::empty(),
                Seq::empty(),
            ).result,
        ),
    decreases depth, 1nat, 0nat,
{
    let mut acc: Vec<Lowered> = Vec::new();
    let mut finals: Vec<Format> = Vec::new();
    let mut i: usize = 0;
    let ghost goal = lowered_list(
        *resolver,
        models(exprs@),
        models(ambient@),
        origin@,
        memo@,
        depth as nat,
        0,
        Seq::empty(),
        Seq::empty(),
    );
    assert(seq_view(acc@) =~= Seq::empty());
    assert(seq_view(finals@) =~= Seq::empty());
    while i < exprs.len()
        invariant
            i <= exprs@.len(),
            goal == lowered_list(
                *resolver,
                models(exprs@),
                models(ambient@),
                origin@,
                old(memo)@,
                depth as nat,
                0,
                Seq::empty(),
                Seq::empty(),
            ),
            goal == lowered_list(
                *resolver,
                models(exprs@),
                models(ambient@),
                origin@,
                memo@,
                depth as nat,
                i as int,
                seq_view(acc@),
                seq_view(finals@),
            ),
        decreases exprs@.len() - i,
    {
        proof {
            lemma_models(exprs@);
        }
        match lower(resolver, &exprs[i], ambient, origin, memo, depth) {
            Err(e) => {
                return Err(e);
            },
            Ok(seq) => {
                if seq.len() == 0 {
                    return Err(BuildError::UnsupportedShape);
                }
                let mut seq = seq;
                let last = seq[seq.len() - 1].format.duplicate();
                proof {
                    lemma_seq_view_add(acc@, seq@);
                    lemma_seq_view_push(finals@, last);
                }
                finals.push(last);
                acc.append(&mut seq);
            },
        }
        i += 1;
    }
    Ok((acc, finals))
}

/// Lowers the fields of `ids`, one after the other through the memo; the
/// sequences come after `acc`.
pub fn lower_fields(
    resolver: &Resolver,
    ids: &Vec<Option<u32>>,
    ambient: &Vec<TypeExpression>,
    origin: &str,
    memo: &mut TypeCache,
    depth: usize,
    start: Vec<Lowered>,
) -> (r: Result<(Vec<Lowered>, Vec<NamedFormat>), BuildError>)
    ensures
        final(memo)@ == lowered_fields(
            *resolver,
            ids@,
            models(ambient@),
            origin@,
            old(memo)@,
            depth as nat,
            0,
            seq_view(start@),
            Seq::empty(),
        ).memo,
        is_fields_outcome(
            r,
            lowered_fields(
                *resolver,
                ids@,
                models(ambient@),
                origin@,
                old(memo)@,
                depth as nat,
                0,
                seq_view(start@),
                Seq::empty(),
            ).result,
        ),
    decreases depth, 1nat, 0nat,
{
    let ghost begin = seq_view(start@);
    let mut acc = start;
    let mut named: Vec<NamedFormat> = Vec::new();
    let mut i: usize = 0;
    let ghost goal = lowered_fields(
        *resolver,
        ids@,
        models(ambient@),
        origin@,
        memo@,
        depth as nat,
        0,
        seq_view(acc@),
        Seq::empty(),
    );
    let empty: Vec<TypeExpression> = Vec::new();
    assert(models(empty@) =~= Seq::empty());
    assert(seq_view(named@) =~= Seq::empty());
    while i < ids.len()
        invariant
            i <= ids@.len(),
            models(empty@) == Seq::<TypeView>::empty(),
            goal == lowered_fields(
                *resolver,
                ids@,
                models(ambient@),
                origin@,
                old(memo)@,
                depth as nat,
                0,
                begin,
                Seq::empty(),
            ),
            begin == seq_view(start@),
            goal == lowered_fields(
                *resolver,
                ids@,
                models(ambient@),
                origin@,
                memo@,
                depth as nat,
                i as int,
                seq_view(acc@),
                seq_view(named@),
            ),
        decreases ids@.len() - i,
    {
        match ids[i] {
            None => {},
            Some(id) => {
                let place = match resolver.resolve_by_id(id, origin) {
                    Err(e) => {
                        return Err(e);
                    },
                    Ok(p) => p,
                };
                let item = resolver.item(place);
                match &item.kind {
                    ItemKind::StructField(declared) => {
                        let target: Option<TypeExpression> = match field_override(&item.attrs) {
                            Err(e) => {
                                return Err(e);
                            },
                            Ok(None) => None,
                            Ok(Some(path)) => match named_type_expression(
                                resolver,
                                path.as_str(),
                                origin,
                            ) {
                                Err(e) => {
                                    return Err(e);
                                },
                                Ok(t) => Some(t),
                            },
                        };
                        let (effective, around): (&TypeExpression, &Vec<TypeExpression>) =
                            match &target {
                            Some(t) => (t, &empty),
                            None => (declared, ambient),
                        };
                        assert(field_type(
                            *resolver,
                            item.attrs@,
                            declared@,
                            models(ambient@),
                            origin@,
                        ) == Ok::<(TypeView, Seq<TypeView>), BuildErrorView>(
                            (effective@, models(around@)),
                        ));
                        match lower(resolver, effective, around, origin, memo, depth) {
                            Err(e) => {
                                return Err(e);
                            },
                            Ok(seq) => {
                                if seq.len() == 0 {
                                    return Err(BuildError::UnsupportedShape);
                                }
                                let mut seq = seq;
                                let name = match &item.name {
                                    Some(n) => n.clone(),
                                    None => String::new(),
                                };
                                let field = NamedFormat {
                                    name,
                                    value: seq[seq.len() - 1].format.duplicate(),
                                };
                                proof {
                                    lemma_seq_view_add(acc@, seq@);
                                    lemma_seq_view_push(named@, field);
                                }
                                named.push(field);
                                acc.append(&mut seq);
                            },
                        }
                    },
                    _ => {},
                }
            },
        }
        i += 1;
    }
    Ok((acc, named))
}

/// Lowers the variants of `ids`, one after the other through the memo.
pub fn lower_variants(
    resolver: &Resolver,
    ids: &Vec<u32>,
    ambient: &Vec<TypeExpression>,
    origin: &str,
    memo: &mut TypeCache,
    depth: usize,
) -> (r: Result<(Vec<Lowered>, ContainerFormat), BuildError>)
    ensures
        final(memo)@ == lowered_variants(
            *resolver,
            ids@,
            models(ambient@),
            origin@,
            old(memo)@,
            depth as nat,
            0,
            Seq::empty(),
            Seq::empty(),
        ).memo,
        is_body_outcome(
            r,
            lowered_variants(
                *resolver,
                ids@,
                models(ambient@),
                origin@,
                old(memo)@,
                depth as nat,
                0,
                Seq::empty(),
                Seq::empty(),
            ).result,
        ),
    decreases depth, 2nat, 0nat,
{
    let mut acc: Vec<Lowered> = Vec::new();
    let mut variants: Vec<NamedVariant> = Vec::new();
    let mut i: usize = 0;
    let ghost goal = lowered_variants(
        *resolver,
        ids@,
        models(ambient@),
        origin@,
        memo@,
        depth as nat,
        0,
        Seq::empty(),
        Seq::empty(),
    );
    assert(seq_view(acc@) =~= Seq::empty());
    assert(seq_view(variants@) =~= Seq::empty());
    while i < ids.len()
        invariant
            i <= ids@.len(),
            goal == lowered_variants(
                *resolver,
                ids@,
                models(ambient@),
                origin@,
                old(memo)@,
                depth as nat,
                0,
                Seq::empty(),
                Seq::empty(),
            ),
            goal == lowered_variants(
                *resolver,
                ids@,
                models(ambient@),
                origin@,
                memo@,
                depth as nat,
                i as int,
                seq_view(acc@),
                seq_view(variants@),
            ),
        decreases ids@.len() - i,
    {
        let place = match resolver.resolve_by_id(ids[i], origin) {
            Err(e) => {
                return Err(e);
            },
            Ok(p) => p,
        };
        let item = resolver.item(place);
        let name = match &item.name {
            Some(n) => n.clone(),
            None => String::new(),
        };
        match &item.kind {
            ItemKind::Variant(VariantPayload::Plain) => {
                let v = NamedVariant { name, value: VariantShape::Unit };
                proof {
                    lemma_seq_view_push(variants@, v);
                }
                variants.push(v);
            },
            ItemKind::Variant(VariantPayload::Tuple(fields)) => {
                match lower_fields(resolver, fields, ambient, origin, memo, depth, acc) {
                    Err(e) => {
                        return Err(e);
                    },
                    Ok((seq, named)) => {
                        acc = seq;
                        let mut formats = field_values(&named);
                        let value = if formats.len() == 1 {
                            match formats.pop() {
                                Some(f) => VariantShape::NewType(f),
                                None => VariantShape::Unit,
                            }
                        } else {
                            VariantShape::Tuple(formats)
                        };
                        assert(value@ == unnamed_shape(values_of(seq_view(named@))));
                        let v = NamedVariant { name, value };
                        proof {
                            lemma_seq_view_push(variants@, v);
                        }
                        variants.push(v);
                    },
                }
            },
            ItemKind::Variant(VariantPayload::Struct(fields)) => {
                let present_fields = present(fields);
                match lower_fields(resolver, &present_fields, ambient, origin, memo, depth, acc) {
                    Err(e) => {
                        return Err(e);
                    },
                    Ok((seq, named)) => {
                        acc = seq;
                        let v = NamedVariant { name, value: VariantShape::Struct(named) };
                        proof {
                            lemma_seq_view_push(variants@, v);
                        }
                        variants.push(v);
                    },
                }
            },
            _ => {
                return Err(BuildError::UnsupportedShape);
            },
        }
        i += 1;
    }
    Ok((acc, ContainerFormat::Enum(variants)))
}

/// Lowers `expr` as it stands in a signature of the module `origin`: no
/// generic arguments surround it, and expressions may nest `DEPTH_LIMIT` deep.
pub fn lower_type(
    resolver: &Resolver,
    expr: &TypeExpression,
    origin: &str,
    memo: &mut TypeCache,
) -> (r: Result<Vec<Lowered>, BuildError>)
    ensures
        final(memo)@ == lowered(
            *resolver,
            expr@,
            Seq::empty(),
            origin@,
            old(memo)@,
            DEPTH_LIMIT as nat,
        ).memo,
        is_outcome(
            r,
            lowered(*resolver, expr@, Seq::empty(), origin@, old(memo)@, DEPTH_LIMIT as nat).result,
        ),
{
    let empty: Vec<TypeExpression> = Vec::new();
    assert(models(empty@) =~= Seq::empty());
    lower(resolver, expr, &empty, origin, memo, DEPTH_LIMIT)
}

} // verus!
