//! What a successful lowering leaves in the memo: no mark that it set itself.
//!
//! A struct or enum is marked as pending while its fields or variants are
//! lowered, and the mark gives way to the stored result when they are done.
//! So after a lowering that succeeded, whatever is still pending was pending
//! before. A pass that starts with an empty memo never finds a pending mark
//! between two of its lowerings.

use crate::cache::{CacheKey, CacheStateView};
use crate::document::{ItemKind, StructShape, VariantPayload};
use crate::format::{FormatView, LoweredView, NamedFormatView, NamedVariantView, VariantShapeView};
use crate::lowering::{
    all_present, error_type, field_ambient, field_type, item_name, lowered, lowered_boxed,
    lowered_fallible, lowered_fields, lowered_list, lowered_named, lowered_variants,
    unnamed_shape, values_of, Memo,
};
use crate::resolver::{resolved_place, span_crate, Resolver};
use crate::text::last_segment;
use crate::types::TypeView;
use vstd::prelude::*;

verus! {

/// Whether every key that is pending in `after` was pending in `before`.
pub open spec fn adds_no_pending(before: Memo, after: Memo) -> bool {
    forall|k: CacheKey|
        (#[trigger] after.contains_key(k)) && after[k] is Pending ==> before.contains_key(k)
            && before[k] is Pending
}

/// Whether no key of `memo` is pending.
pub open spec fn settled(memo: Memo) -> bool {
    forall|k: CacheKey| (#[trigger] memo.contains_key(k)) ==> !(memo[k] is Pending)
}

/// A lowering that succeeds leaves no pending mark of its own.
pub proof fn lemma_lowering_settles(
    r: Resolver,
    expr: TypeView,
    ambient: Seq<TypeView>,
    origin: Seq<char>,
    memo: Memo,
    depth: nat,
)
    requires
        lowered(r, expr, ambient, origin, memo, depth).result is Ok,
    ensures
        adds_no_pending(memo, lowered(r, expr, ambient, origin, memo, depth).memo),
    decreases depth, 0nat, 0nat,
{
    let key = CacheKey { expr, ambient };
    let below = (depth - 1) as nat;
    if depth > 0 && !(memo.contains_key(key) && memo[key] is Cached) {
        match expr {
            TypeView::OwnedIndirection(inner) => {
                lemma_indirection_settles(r, *inner, ambient, origin, memo, below, key);
            },
            TypeView::NamedPath { name, id, args } => {
                let base = last_segment(name);
                if base == "Box"@ {
                    if args.len() == 1 {
                        lemma_indirection_settles(r, args[0], ambient, origin, memo, below, key);
                    }
                } else if base == "Vec"@ || base == "Option"@ {
                    if args.len() > 0 {
                        lemma_lowering_settles(r, args[0], Seq::empty(), origin, memo, below);
                    }
                } else if base == "String"@ {
                } else if base == "Result"@ {
                    lemma_fallible_settles(r, args, origin, memo, below);
                } else {
                    lemma_named_settles(r, base, id, args, ambient, origin, memo, below, key);
                }
            },
            TypeView::GenericParameter(_) => {
                if ambient.len() == 1 {
                    lemma_lowering_settles(r, ambient[0], Seq::empty(), origin, memo, below);
                }
            },
            TypeView::Tuple(elems) => {
                lemma_list_settles(
                    r,
                    elems,
                    Seq::empty(),
                    origin,
                    memo,
                    below,
                    0,
                    Seq::empty(),
                    Seq::empty(),
                );
            },
            _ => {},
        }
    }
}

/// The lowering of an owned indirection leaves no pending mark of its own.
pub proof fn lemma_indirection_settles(
    r: Resolver,
    inner: TypeView,
    ambient: Seq<TypeView>,
    origin: Seq<char>,
    memo: Memo,
    depth: nat,
    key: CacheKey,
)
    requires
        lowered_boxed(r, inner, ambient, origin, memo, depth, key).result is Ok,
    ensures
        adds_no_pending(memo, lowered_boxed(r, inner, ambient, origin, memo, depth, key).memo),
    decreases depth, 3nat, 0nat,
{
    let inner_key = CacheKey { expr: inner, ambient };
    if !(memo.contains_key(inner_key) && memo[inner_key] is Pending && inner is NamedPath) {
        lemma_lowering_settles(r, inner, ambient, origin, memo, depth);
    }
}

/// The lowering of a fallible wrapper leaves no pending mark of its own.
pub proof fn lemma_fallible_settles(
    r: Resolver,
    args: Seq<TypeView>,
    origin: Seq<char>,
    memo: Memo,
    depth: nat,
)
    requires
        lowered_fallible(r, args, origin, memo, depth).result is Ok,
    ensures
        adds_no_pending(memo, lowered_fallible(r, args, origin, memo, depth).memo),
    decreases depth, 3nat, 0nat,
{
    if args.len() > 0 && error_type(r) is Ok {
        lemma_list_settles(
            r,
            seq![args[0], error_type(r)->Ok_0],
            Seq::empty(),
            origin,
            memo,
            depth,
            0,
            Seq::empty(),
            Seq::empty(),
        );
    }
}

/// The lowering of a named struct, enum or alias leaves no pending mark of
/// its own: the mark that it sets gives way to the result that it stores.
pub proof fn lemma_named_settles(
    r: Resolver,
    base: Seq<char>,
    id: u32,
    args: Seq<TypeView>,
    ambient: Seq<TypeView>,
    origin: Seq<char>,
    memo: Memo,
    depth: nat,
    key: CacheKey,
)
    requires
        lowered_named(r, base, id, args, ambient, origin, memo, depth, key).result is Ok,
    ensures
        adds_no_pending(
            memo,
            lowered_named(r, base, id, args, ambient, origin, memo, depth, key).memo,
        ),
    decreases depth, 3nat, 0nat,
{
    let place = resolved_place(r.documents@, id, origin)->Ok_0;
    let item = r.item_at(place);
    let home = span_crate(item.span)->Ok_0;
    match item.kind {
        ItemKind::TypeAlias(target) => {
            lemma_lowering_settles(r, target@, ambient, home, memo, depth);
        },
        ItemKind::Struct(StructShape::Tuple) => {},
        ItemKind::Struct(_) | ItemKind::Enum(_) => {
            lemma_list_settles(
                r,
                args,
                ambient,
                home,
                memo,
                depth,
                0,
                Seq::empty(),
                Seq::empty(),
            );
            let named = lowered_list(
                r,
                args,
                ambient,
                home,
                memo,
                depth,
                0,
                Seq::empty(),
                Seq::empty(),
            );
            if !memo.contains_key(key) {
                let marked = named.memo.insert(key, CacheStateView::Pending);
                let inside = field_ambient(args, ambient);
                match item.kind {
                    ItemKind::Enum(variants) => {
                        lemma_variants_settle(
                            r,
                            variants@,
                            inside,
                            home,
                            marked,
                            depth,
                            0,
                            Seq::empty(),
                            Seq::empty(),
                        );
                    },
                    ItemKind::Struct(StructShape::Plain(fields)) => {
                        lemma_fields_settle(
                            r,
                            all_present(fields@),
                            inside,
                            home,
                            marked,
                            depth,
                            0,
                            Seq::empty(),
                            Seq::empty(),
                        );
                    },
                    _ => {},
                }
            }
        },
        _ => {},
    }
}

/// The lowering of a list of expressions leaves no pending mark of its own.
pub proof fn lemma_list_settles(
    r: Resolver,
    exprs: Seq<TypeView>,
    ambient: Seq<TypeView>,
    origin: Seq<char>,
    memo: Memo,
    depth: nat,
    i: int,
    acc: Seq<LoweredView>,
    finals: Seq<FormatView>,
)
    requires
        lowered_list(r, exprs, ambient, origin, memo, depth, i, acc, finals).result is Ok,
    ensures
        adds_no_pending(
            memo,
            lowered_list(r, exprs, ambient, origin, memo, depth, i, acc, finals).memo,
        ),
    decreases depth, 1nat, exprs.len() - i,
{
    if 0 <= i < exprs.len() {
        let o = lowered(r, exprs[i], ambient, origin, memo, depth);
        lemma_lowering_settles(r, exprs[i], ambient, origin, memo, depth);
        let seq = o.result->Ok_0;
        lemma_list_settles(
            r,
            exprs,
            ambient,
            origin,
            o.memo,
            depth,
            i + 1,
            acc + seq,
            finals.push(seq.last().format),
        );
    }
}

/// The lowering of a list of fields leaves no pending mark of its own.
pub proof fn lemma_fields_settle(
    r: Resolver,
    ids: Seq<Option<u32>>,
    ambient: Seq<TypeView>,
    origin: Seq<char>,
    memo: Memo,
    depth: nat,
    i: int,
    acc: Seq<LoweredView>,
    named: Seq<NamedFormatView>,
)
    requires
        lowered_fields(r, ids, ambient, origin, memo, depth, i, acc, named).result is Ok,
    ensures
        adds_no_pending(
            memo,
            lowered_fields(r, ids, ambient, origin, memo, depth, i, acc, named).memo,
        ),
    decreases depth, 1nat, ids.len() - i,
{
    if 0 <= i < ids.len() {
        match ids[i] {
            None => {
                lemma_fields_settle(r, ids, ambient, origin, memo, depth, i + 1, acc, named);
            },
            Some(id) => {
                let item = r.item_at(resolved_place(r.documents@, id, origin)->Ok_0);
                match item.kind {
                    ItemKind::StructField(declared) => {
                        let chosen = field_type(r, item.attrs@, declared@, ambient, origin)->Ok_0;
                        let o = lowered(r, chosen.0, chosen.1, origin, memo, depth);
                        lemma_lowering_settles(r, chosen.0, chosen.1, origin, memo, depth);
                        let seq = o.result->Ok_0;
                        lemma_fields_settle(
                            r,
                            ids,
                            ambient,
                            origin,
                            o.memo,
                            depth,
                            i + 1,
                            acc + seq,
                            named.push(
                                NamedFormatView {
                                    name: item_name(item),
                                    value: seq.last().format,
                                },
                            ),
                        );
                    },
                    _ => {
                        lemma_fields_settle(
                            r,
                            ids,
                            ambient,
                            origin,
                            memo,
                            depth,
                            i + 1,
                            acc,
                            named,
                        );
                    },
                }
            },
        }
    }
}

/// The lowering of a list of variants leaves no pending mark of its own.
pub proof fn lemma_variants_settle(
    r: Resolver,
    ids: Seq<u32>,
    ambient: Seq<TypeView>,
    origin: Seq<char>,
    memo: Memo,
    depth: nat,
    i: int,
    acc: Seq<LoweredView>,
    variants: Seq<NamedVariantView>,
)
    requires
        lowered_variants(r, ids, ambient, origin, memo, depth, i, acc, variants).result is Ok,
    ensures
        adds_no_pending(
            memo,
            lowered_variants(r, ids, ambient, origin, memo, depth, i, acc, variants).memo,
        ),
    decreases depth, 2nat, ids.len() - i,
{
    if 0 <= i < ids.len() {
        let item = r.item_at(resolved_place(r.documents@, ids[i], origin)->Ok_0);
        match item.kind {
            ItemKind::Variant(VariantPayload::Plain) => {
                lemma_variants_settle(
                    r,
                    ids,
                    ambient,
                    origin,
                    memo,
                    depth,
                    i + 1,
                    acc,
                    variants.push(
                        NamedVariantView { name: item_name(item), value: VariantShapeView::Unit },
                    ),
                );
            },
            ItemKind::Variant(VariantPayload::Tuple(fields)) => {
                let f = lowered_fields(
                    r,
                    fields@,
                    ambient,
                    origin,
                    memo,
                    depth,
                    0,
                    acc,
                    Seq::empty(),
                );
                lemma_fields_settle(r, fields@, ambient, origin, memo, depth, 0, acc, Seq::empty());
                let got = f.result->Ok_0;
                lemma_variants_settle(
                    r,
                    ids,
                    ambient,
                    origin,
                    f.memo,
                    depth,
                    i + 1,
                    got.0,
                    variants.push(
                        NamedVariantView {
                            name: item_name(item),
                            value: unnamed_shape(values_of(got.1)),
                        },
                    ),
                );
            },
            ItemKind::Variant(VariantPayload::Struct(fields)) => {
                let f = lowered_fields(
                    r,
                    all_present(fields@),
                    ambient,
                    origin,
                    memo,
                    depth,
                    0,
                    acc,
                    Seq::empty(),
                );
                lemma_fields_settle(
                    r,
                    all_present(fields@),
                    ambient,
                    origin,
                    memo,
                    depth,
                    0,
                    acc,
                    Seq::empty(),
                );
                let got = f.result->Ok_0;
                lemma_variants_settle(
                    r,
                    ids,
                    ambient,
                    origin,
                    f.memo,
                    depth,
                    i + 1,
                    got.0,
                    variants.push(
                        NamedVariantView {
                            name: item_name(item),
                            value: VariantShapeView::Struct(got.1),
                        },
                    ),
                );
            },
            _ => {},
        }
    }
}

/// A lowering that succeeds on a memo without pending marks leaves a memo
/// without pending marks: the next lowering of the pass starts outside of
/// every expression.
pub proof fn lemma_settled_stays_settled(
    r: Resolver,
    expr: TypeView,
    ambient: Seq<TypeView>,
    origin: Seq<char>,
    memo: Memo,
    depth: nat,
)
    requires
        settled(memo),
        lowered(r, expr, ambient, origin, memo, depth).result is Ok,
    ensures
        settled(lowered(r, expr, ambient, origin, memo, depth).memo),
{
    lemma_lowering_settles(r, expr, ambient, origin, memo, depth);
}

} // verus!
