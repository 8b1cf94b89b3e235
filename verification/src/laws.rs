//! What holds of the lowering engine, of a pass and of a call across the
//! boundary: laws, proved of the functions that state what the executable
//! functions compute.

use crate::cache::{CacheKey, CacheStateView};
use crate::document::{Item, ItemKind, StructShape};
use crate::emit::{declarations, entry_declaration};
use crate::exports::{picks, selected, Selection};
use crate::error::BuildErrorView;
use crate::format::{short_name, FormatView, LoweredView};
use crate::lowering::{
    done, field_ambient, item_name, lowered, monomorphized_name, single, Memo, Threaded,
};
use crate::registry::{
    lemma_registered_in_turn, lemma_registering_twice_changes_nothing, registered,
};
use crate::resolver::{resolved_place, span_crate, Resolver};
use crate::text::last_segment;
use crate::types::TypeView;
use vstd::prelude::*;

verus! {

/// Whether `expr` is an owned indirection, and to what.
pub open spec fn boxed_inner(expr: TypeView) -> Option<TypeView> {
    match expr {
        TypeView::OwnedIndirection(inner) => Some(*inner),
        TypeView::NamedPath { name, id, args } => if last_segment(name) == "Box"@ && args.len()
            == 1 {
            Some(args[0])
        } else {
            None
        },
        _ => None,
    }
}

/// Whether the lowering of `expr` under `ambient` starts outside of it: the
/// memo marks neither the expression as pending nor, for an owned
/// indirection, what it points to.
pub open spec fn starts_outside(expr: TypeView, ambient: Seq<TypeView>, memo: Memo) -> bool {
    let key = CacheKey { expr, ambient };
    &&& !(memo.contains_key(key) && memo[key] is Pending)
    &&& match boxed_inner(expr) {
        Some(inner) => {
            let inner_key = CacheKey { expr: inner, ambient };
            !(memo.contains_key(inner_key) && memo[inner_key] is Pending)
        },
        None => true,
    }
}

/// A lowering that succeeds and starts outside of its expression stores its
/// result in the memo.
pub proof fn lemma_lowering_is_stored(
    r: Resolver,
    expr: TypeView,
    ambient: Seq<TypeView>,
    origin: Seq<char>,
    memo: Memo,
    depth: nat,
)
    requires
        starts_outside(expr, ambient, memo),
        lowered(r, expr, ambient, origin, memo, depth).result is Ok,
    ensures
        ({
            let first = lowered(r, expr, ambient, origin, memo, depth);
            let key = CacheKey { expr, ambient };
            first.memo.contains_key(key) && first.memo[key] == CacheStateView::Cached(
                first.result->Ok_0,
            )
        }),
{
    let key = CacheKey { expr, ambient };
    if depth > 0 && !(memo.contains_key(key) && memo[key] is Cached) {
        // The expression is not in the memo, so every way to succeed ends
        // with storing the result; an owned indirection and a named item
        // store it one call further down.
        assert(!memo.contains_key(key));
        reveal_with_fuel(lowered, 2);
    }
}

/// A lowering that succeeds either stores its result under its expression
/// or, where it ends at a pending mark, leaves the memo as it is.
pub proof fn lemma_lowering_stores_or_rests(
    r: Resolver,
    expr: TypeView,
    ambient: Seq<TypeView>,
    origin: Seq<char>,
    memo: Memo,
    depth: nat,
)
    requires
        lowered(r, expr, ambient, origin, memo, depth).result is Ok,
    ensures
        ({
            let first = lowered(r, expr, ambient, origin, memo, depth);
            let key = CacheKey { expr, ambient };
            first.memo == memo || (first.memo.contains_key(key) && first.memo[key]
                == CacheStateView::Cached(first.result->Ok_0))
        }),
{
    reveal_with_fuel(lowered, 3);
}

/// Lowering is idempotent: lowering the same expression a second time,
/// through the memo that the first lowering left, returns the same result
/// and leaves the memo as it is. This holds of every lowering that succeeds,
/// whatever the memo held at the start.
pub proof fn lemma_lowering_is_idempotent(
    r: Resolver,
    expr: TypeView,
    ambient: Seq<TypeView>,
    origin: Seq<char>,
    memo: Memo,
    depth: nat,
)
    requires
        lowered(r, expr, ambient, origin, memo, depth).result is Ok,
    ensures
        ({
            let first = lowered(r, expr, ambient, origin, memo, depth);
            lowered(r, expr, ambient, origin, first.memo, depth) == first
        }),
{
    lemma_lowering_stores_or_rests(r, expr, ambient, origin, memo, depth);
}

/// Lowering twice registers once: the results of two successive lowerings
/// of one expression through one memo, registered together, leave the
/// registry as the first result alone leaves it, so every name keeps the one
/// definition that the first lowering gave it.
pub proof fn lemma_lowering_twice_registers_once(
    r: Resolver,
    expr: TypeView,
    ambient: Seq<TypeView>,
    origin: Seq<char>,
    memo: Memo,
    depth: nat,
    reg: Map<Seq<char>, crate::format::ContainerView>,
)
    requires
        lowered(r, expr, ambient, origin, memo, depth).result is Ok,
    ensures
        ({
            let first = lowered(r, expr, ambient, origin, memo, depth);
            let second = lowered(r, expr, ambient, origin, first.memo, depth);
            let one = first.result->Ok_0;
            let two = second.result->Ok_0;
            &&& second.result is Ok
            &&& registered(reg, one + two, (one + two).len() as int) == registered(
                reg,
                one,
                one.len() as int,
            )
        }),
{
    lemma_lowering_is_idempotent(r, expr, ambient, origin, memo, depth);
    let one = lowered(r, expr, ambient, origin, memo, depth).result->Ok_0;
    lemma_registered_in_turn(reg, one, one, one.len() as int);
    lemma_registering_twice_changes_nothing(reg, one);
}

/// The name of a container with one argument. Two of them are the same only
/// where the names of the two arguments are.
pub proof fn lemma_instances_have_distinct_names(base: Seq<char>, a: FormatView, b: FormatView)
    requires
        short_name(a) is Some,
        short_name(b) is Some,
        short_name(a) != short_name(b),
    ensures
        monomorphized_name(base, seq![a]) is Some,
        monomorphized_name(base, seq![b]) is Some,
        monomorphized_name(base, seq![a]) != monomorphized_name(base, seq![b]),
{
    reveal_with_fuel(monomorphized_name, 2);
    let x = short_name(a)->0;
    let y = short_name(b)->0;
    assert(seq![a].drop_last() =~= Seq::empty());
    assert(seq![b].drop_last() =~= Seq::empty());
    let head = base + "_"@;
    assert(monomorphized_name(base, seq![a]) == Some(head + x));
    assert(monomorphized_name(base, seq![b]) == Some(head + y));
    if head + x == head + y {
        assert((head + x).subrange(head.len() as int, (head + x).len() as int) =~= x);
        assert((head + y).subrange(head.len() as int, (head + y).len() as int) =~= y);
        assert(x == y);
    }
}

/// An occurrence of a generic parameter under one surrounding argument
/// lowers to what that argument lowers to.
pub proof fn lemma_parameter_lowers_to_argument(
    r: Resolver,
    parameter: Seq<char>,
    argument: TypeView,
    origin: Seq<char>,
    memo: Memo,
    depth: nat,
)
    requires
        depth > 0,
        !memo.contains_key(
            CacheKey { expr: TypeView::GenericParameter(parameter), ambient: seq![argument] },
        ),
    ensures
        lowered(
            r,
            TypeView::GenericParameter(parameter),
            seq![argument],
            origin,
            memo,
            depth,
        ).result == lowered(r, argument, Seq::empty(), origin, memo, (depth - 1) as nat).result,
{
}

/// The fields of a container reached with concrete arguments are surrounded
/// by those arguments.
pub proof fn lemma_fields_see_the_arguments(args: Seq<TypeView>)
    requires
        args.len() > 0,
        !(args[0] is GenericParameter),
    ensures
        field_ambient(args, Seq::empty()) == args,
{
}

/// A struct or enum that is reached while its own lowering is under way
/// lowers to a reference by name. No definition comes with it, the memo
/// stays as it is, and the pending mark stands.
pub proof fn lemma_self_reference_is_forward(
    r: Resolver,
    name: Seq<char>,
    id: u32,
    ambient: Seq<TypeView>,
    origin: Seq<char>,
    memo: Memo,
    depth: nat,
)
    requires
        depth >= 2,
        last_segment(name) != "Box"@,
        last_segment(name) != "Vec"@,
        last_segment(name) != "Option"@,
        last_segment(name) != "String"@,
        last_segment(name) != "Result"@,
        memo.contains_key(
            CacheKey { expr: TypeView::NamedPath { name, id, args: Seq::empty() }, ambient },
        ),
        memo[CacheKey {
            expr: TypeView::NamedPath { name, id, args: Seq::empty() },
            ambient,
        }] is Pending,
        resolved_place(r.documents@, id, origin) is Ok,
        span_crate(r.item_at(resolved_place(r.documents@, id, origin)->Ok_0).span) is Ok,
        is_container(r.item_at(resolved_place(r.documents@, id, origin)->Ok_0).kind),
    ensures
        lowered(
            r,
            TypeView::NamedPath { name, id, args: Seq::empty() },
            ambient,
            origin,
            memo,
            depth,
        ) == done(single(FormatView::NamedType(last_segment(name))), memo),
{
    reveal_with_fuel(lowered, 3);
    reveal_with_fuel(monomorphized_name, 2);
}

/// An owned indirection to a type that is being lowered is answered by the
/// name of that type alone, whatever the documents hold: no definition comes
/// with it and the memo stays as it is.
pub proof fn lemma_indirection_to_pending_is_forward(
    r: Resolver,
    expr: TypeView,
    name: Seq<char>,
    id: u32,
    ambient: Seq<TypeView>,
    origin: Seq<char>,
    memo: Memo,
    depth: nat,
)
    requires
        depth > 0,
        boxed_inner(expr) == Some(TypeView::NamedPath { name, id, args: Seq::empty() }),
        memo.contains_key(
            CacheKey { expr: TypeView::NamedPath { name, id, args: Seq::empty() }, ambient },
        ),
        memo[CacheKey {
            expr: TypeView::NamedPath { name, id, args: Seq::empty() },
            ambient,
        }] is Pending,
        !(memo.contains_key(CacheKey { expr, ambient }) && memo[CacheKey { expr, ambient }] is Cached),
    ensures
        lowered(r, expr, ambient, origin, memo, depth) == done(
            single(FormatView::NamedType(last_segment(name))),
            memo,
        ),
{
    let none = Seq::<TypeView>::empty();
    let args = crate::lowering::lowered_list(
        r,
        none,
        ambient,
        origin,
        memo,
        (depth - 1) as nat,
        0,
        Seq::empty(),
        Seq::empty(),
    );
    assert(args == done((Seq::<LoweredView>::empty(), Seq::<FormatView>::empty()), memo));
    assert(monomorphized_name(last_segment(name), Seq::<FormatView>::empty()) == Some(
        last_segment(name),
    ));
    reveal_with_fuel(lowered, 2);
}

/// A struct whose one field is an optional owned indirection to the struct
/// itself.
pub open spec fn refers_to_itself(
    r: Resolver,
    name: Seq<char>,
    id: u32,
    field_id: u32,
    link: TypeView,
    origin: Seq<char>,
) -> bool {
    &&& links_to_itself(r, name, id, field_id, link, origin)
    &&& r.item_at(resolved_place(r.documents@, id, origin)->Ok_0).kind->Struct_0->Plain_0@
        == seq![field_id]
}

/// A struct with two fields: a scalar, and an optional owned indirection to
/// the struct itself.
pub open spec fn refers_to_itself_beside_a_value(
    r: Resolver,
    name: Seq<char>,
    id: u32,
    value_id: u32,
    field_id: u32,
    link: TypeView,
    origin: Seq<char>,
) -> bool {
    &&& links_to_itself(r, name, id, field_id, link, origin)
    &&& r.item_at(resolved_place(r.documents@, id, origin)->Ok_0).kind->Struct_0->Plain_0@
        == seq![value_id, field_id]
    &&& resolved_place(r.documents@, value_id, origin) matches Ok(value_place)
    &&& r.item_at(value_place).kind matches ItemKind::StructField(value)
    &&& scalar_format(value@) is Some
    &&& crate::lowering::override_of(r.item_at(value_place).attrs@) == Ok::<
        Option<Seq<char>>,
        BuildErrorView,
    >(None)
}

/// A struct with named fields, one of which, `field_id`, is an optional
/// owned indirection to the struct itself.
pub open spec fn links_to_itself(
    r: Resolver,
    name: Seq<char>,
    id: u32,
    field_id: u32,
    link: TypeView,
    origin: Seq<char>,
) -> bool {
    let expr = TypeView::NamedPath { name, id, args: Seq::empty() };
    &&& last_segment(name) != "Box"@
    &&& last_segment(name) != "Vec"@
    &&& last_segment(name) != "Option"@
    &&& last_segment(name) != "String"@
    &&& last_segment(name) != "Result"@
    &&& link matches TypeView::NamedPath { name: option_name, id: option_id, args: option_args }
    &&& last_segment(option_name) == "Option"@
    &&& option_args.len() == 1
    &&& option_args[0] matches TypeView::NamedPath { name: box_name, id: box_id, args: box_args }
    &&& last_segment(box_name) == "Box"@
    &&& box_args == seq![expr]
    &&& resolved_place(r.documents@, id, origin) matches Ok(place)
    &&& r.item_at(place).kind matches ItemKind::Struct(StructShape::Plain(fields))
    &&& span_crate(r.item_at(place).span) == Ok::<Seq<char>, BuildErrorView>(origin)
    &&& resolved_place(r.documents@, field_id, origin) matches Ok(field_place)
    &&& r.item_at(field_place).kind matches ItemKind::StructField(declared)
    &&& declared@ == link
    &&& crate::lowering::override_of(r.item_at(field_place).attrs@) == Ok::<
        Option<Seq<char>>,
        BuildErrorView,
    >(None)
}

/// Inside the pending lowering of a struct, an optional owned indirection to
/// the struct lowers to two references by name, and defines nothing.
pub proof fn lemma_link_is_forward(
    r: Resolver,
    name: Seq<char>,
    id: u32,
    field_id: u32,
    link: TypeView,
    origin: Seq<char>,
    memo: Memo,
    depth: nat,
)
    requires
        depth >= 4,
        links_to_itself(r, name, id, field_id, link, origin),
        memo.contains_key(
            CacheKey {
                expr: TypeView::NamedPath { name, id, args: Seq::empty() },
                ambient: Seq::empty(),
            },
        ),
        memo[CacheKey {
            expr: TypeView::NamedPath { name, id, args: Seq::empty() },
            ambient: Seq::empty(),
        }] is Pending,
        !memo.contains_key(CacheKey { expr: link, ambient: Seq::empty() }),
        !memo.contains_key(CacheKey { expr: link->NamedPath_args[0], ambient: Seq::empty() }),
    ensures
        lowered(r, link, Seq::empty(), origin, memo, depth).result == Ok::<
            Seq<LoweredView>,
            BuildErrorView,
        >(
            single(FormatView::NamedType(last_segment(name))) + single(
                FormatView::Option(Box::new(FormatView::NamedType(last_segment(name)))),
            ),
        ),
{
    let expr = TypeView::NamedPath { name, id, args: Seq::empty() };
    let boxed = link->NamedPath_args[0];
    assert(boxed->NamedPath_args =~= seq![expr]);
    lemma_indirection_to_pending_is_forward(
        r,
        boxed,
        name,
        id,
        Seq::empty(),
        origin,
        memo,
        (depth - 1) as nat,
    );
    assert(single(FormatView::NamedType(last_segment(name))).len() == 1);
    reveal_strlit("Option");
    reveal_strlit("Box");
    reveal_strlit("Vec");
    assert("Option"@ != "Box"@ && "Option"@ != "Vec"@) by {
        assert("Option"@.len() == 6 && "Box"@.len() == 3 && "Vec"@.len() == 3);
    }
}

/// Lowering is safe on cycles: a struct whose one field is an optional owned
/// indirection to the struct itself lowers, from an empty memo, to two
/// references by name and exactly one definition, which comes last.
pub proof fn lemma_self_referential_struct_is_defined_once(
    r: Resolver,
    name: Seq<char>,
    id: u32,
    field_id: u32,
    link: TypeView,
    origin: Seq<char>,
    depth: nat,
)
    requires
        depth >= 6,
        refers_to_itself(r, name, id, field_id, link, origin),
    ensures
        ({
            let base = last_segment(name);
            let field = r.item_at(resolved_place(r.documents@, field_id, origin)->Ok_0);
            let reference = FormatView::NamedType(base);
            let optional = FormatView::Option(Box::new(reference));
            lowered(
                r,
                TypeView::NamedPath { name, id, args: Seq::empty() },
                Seq::empty(),
                origin,
                Map::empty(),
                depth,
            ).result == Ok::<Seq<LoweredView>, BuildErrorView>(
                seq![
                    LoweredView { format: reference, container: None },
                    LoweredView { format: optional, container: None },
                    LoweredView {
                        format: reference,
                        container: Some(
                            crate::format::ContainerView::Struct(
                                seq![
                                    crate::format::NamedFormatView {
                                        name: crate::lowering::item_name(field),
                                        value: optional,
                                    },
                                ],
                            ),
                        ),
                    },
                ],
            )
        }),
{
    let expr = TypeView::NamedPath { name, id, args: Seq::empty() };
    let base = last_segment(name);
    let key = CacheKey { expr, ambient: Seq::empty() };
    let empty = Map::<CacheKey, CacheStateView>::empty();
    let marked = empty.insert(key, CacheStateView::Pending);
    let below = (depth - 1) as nat;
    lemma_link_is_forward(r, name, id, field_id, link, origin, marked, below);
    let inner = lowered(r, link, Seq::empty(), origin, marked, below);
    let reference = FormatView::NamedType(base);
    let optional = FormatView::Option(Box::new(reference));
    let seq = single(reference) + single(optional);
    assert(seq.len() == 2 && seq.last().format == optional);
    let place = resolved_place(r.documents@, id, origin)->Ok_0;
    let fields = r.item_at(place).kind->Struct_0->Plain_0;
    let ids = crate::lowering::all_present(fields@);
    assert(ids.len() == 1 && ids[0] == Some(field_id));
    assert(field_ambient(Seq::<TypeView>::empty(), Seq::<TypeView>::empty()) =~= Seq::<
        TypeView,
    >::empty());
    let body = crate::lowering::lowered_fields(
        r,
        ids,
        Seq::empty(),
        origin,
        marked,
        below,
        0,
        Seq::empty(),
        Seq::empty(),
    );
    let field = r.item_at(resolved_place(r.documents@, field_id, origin)->Ok_0);
    assert(body.result == Ok::<
        (Seq<LoweredView>, Seq<crate::format::NamedFormatView>),
        BuildErrorView,
    >(
        (
            Seq::<LoweredView>::empty() + seq,
            Seq::<crate::format::NamedFormatView>::empty().push(
                crate::format::NamedFormatView {
                    name: crate::lowering::item_name(field),
                    value: optional,
                },
            ),
        ),
    )) by {
        reveal_with_fuel(crate::lowering::lowered_fields, 3);
    }
    let named = crate::lowering::lowered_list(
        r,
        Seq::<TypeView>::empty(),
        Seq::empty(),
        origin,
        empty,
        below,
        0,
        Seq::empty(),
        Seq::empty(),
    );
    assert(named == done((Seq::<LoweredView>::empty(), Seq::<FormatView>::empty()), empty));
    assert(monomorphized_name(base, Seq::<FormatView>::empty()) == Some(base));
    assert(!empty.contains_key(key));
    reveal_with_fuel(lowered, 2);
    let top = lowered(r, expr, Seq::empty(), origin, empty, depth);
    assert(top.result is Ok);
    assert(top.result->Ok_0 =~= seq![
        LoweredView { format: reference, container: None },
        LoweredView { format: optional, container: None },
        LoweredView {
            format: reference,
            container: Some(
                crate::format::ContainerView::Struct(
                    seq![
                        crate::format::NamedFormatView {
                            name: crate::lowering::item_name(field),
                            value: optional,
                        },
                    ],
                ),
            ),
        },
    ]);
}

/// One field on: a field without an override, whose type lowers to
/// something, adds that to what the fields before it gave.
pub proof fn lemma_one_field_on(
    r: Resolver,
    ids: Seq<Option<u32>>,
    ambient: Seq<TypeView>,
    origin: Seq<char>,
    memo: Memo,
    depth: nat,
    i: int,
    acc: Seq<LoweredView>,
    named: Seq<crate::format::NamedFormatView>,
)
    requires
        0 <= i < ids.len(),
        ({
            &&& ids[i] matches Some(id)
            &&& resolved_place(r.documents@, id, origin) matches Ok(place)
            &&& r.item_at(place).kind matches ItemKind::StructField(declared)
            &&& crate::lowering::override_of(r.item_at(place).attrs@) == Ok::<
                Option<Seq<char>>,
                BuildErrorView,
            >(None)
            &&& lowered(r, declared@, ambient, origin, memo, depth).result matches Ok(seq)
            &&& seq.len() > 0
        }),
    ensures
        ({
            let item = r.item_at(resolved_place(r.documents@, ids[i]->0, origin)->Ok_0);
            let o = lowered(r, item.kind->StructField_0@, ambient, origin, memo, depth);
            crate::lowering::lowered_fields(r, ids, ambient, origin, memo, depth, i, acc, named)
                == crate::lowering::lowered_fields(
                r,
                ids,
                ambient,
                origin,
                o.memo,
                depth,
                i + 1,
                acc + o.result->Ok_0,
                named.push(
                    crate::format::NamedFormatView {
                        name: crate::lowering::item_name(item),
                        value: o.result->Ok_0.last().format,
                    },
                ),
            )
        }),
{
}

/// Lowering is safe on cycles beside other fields too: a struct with a
/// scalar field and an optional owned indirection to the struct itself
/// lowers, from an empty memo, to the format of the scalar, two references by
/// name and exactly one definition, which comes last and holds both fields.
pub proof fn lemma_self_reference_beside_a_value_is_defined_once(
    r: Resolver,
    name: Seq<char>,
    id: u32,
    value_id: u32,
    field_id: u32,
    link: TypeView,
    origin: Seq<char>,
    depth: nat,
)
    requires
        depth >= 6,
        refers_to_itself_beside_a_value(r, name, id, value_id, field_id, link, origin),
    ensures
        ({
            let base = last_segment(name);
            let value = r.item_at(resolved_place(r.documents@, value_id, origin)->Ok_0);
            let field = r.item_at(resolved_place(r.documents@, field_id, origin)->Ok_0);
            let scalar = scalar_format(value.kind->StructField_0@)->0;
            let reference = FormatView::NamedType(base);
            let optional = FormatView::Option(Box::new(reference));
            lowered(
                r,
                TypeView::NamedPath { name, id, args: Seq::empty() },
                Seq::empty(),
                origin,
                Map::empty(),
                depth,
            ).result == Ok::<Seq<LoweredView>, BuildErrorView>(
                seq![
                    LoweredView { format: scalar, container: None },
                    LoweredView { format: reference, container: None },
                    LoweredView { format: optional, container: None },
                    LoweredView {
                        format: reference,
                        container: Some(
                            crate::format::ContainerView::Struct(
                                seq![
                                    crate::format::NamedFormatView {
                                        name: crate::lowering::item_name(value),
                                        value: scalar,
                                    },
                                    crate::format::NamedFormatView {
                                        name: crate::lowering::item_name(field),
                                        value: optional,
                                    },
                                ],
                            ),
                        ),
                    },
                ],
            )
        }),
{
    let none = Seq::<TypeView>::empty();
    let expr = TypeView::NamedPath { name, id, args: Seq::empty() };
    let base = last_segment(name);
    let key = CacheKey { expr, ambient: none };
    let empty = Map::<CacheKey, CacheStateView>::empty();
    let marked = empty.insert(key, CacheStateView::Pending);
    let below = (depth - 1) as nat;
    let value = r.item_at(resolved_place(r.documents@, value_id, origin)->Ok_0);
    let field = r.item_at(resolved_place(r.documents@, field_id, origin)->Ok_0);
    let declared = value.kind->StructField_0@;
    let scalar = scalar_format(declared)->0;
    let value_key = CacheKey { expr: declared, ambient: none };
    assert(value_key != key);
    lemma_scalar_lowers_to_its_format(r, declared, origin, marked, below);
    let valued = marked.insert(value_key, CacheStateView::Cached(single(scalar)));
    let boxed = link->NamedPath_args[0];
    assert(link->NamedPath_args.len() == 1 && boxed->NamedPath_args.len() == 1);
    assert(expr->NamedPath_args.len() == 0);
    if declared is NamedPath {
        assert(declared->NamedPath_args.len() == 0);
    }
    lemma_link_is_forward(r, name, id, field_id, link, origin, valued, below);
    let reference = FormatView::NamedType(base);
    let optional = FormatView::Option(Box::new(reference));
    let seq = single(reference) + single(optional);
    assert(seq.len() == 2 && seq.last().format == optional);
    assert(single(scalar).len() == 1 && single(scalar).last().format == scalar);
    let place = resolved_place(r.documents@, id, origin)->Ok_0;
    let fields = r.item_at(place).kind->Struct_0->Plain_0;
    let ids = crate::lowering::all_present(fields@);
    assert(ids.len() == 2 && ids[0] == Some(value_id) && ids[1] == Some(field_id));
    assert(field_ambient(none, none) =~= none);
    let body = crate::lowering::lowered_fields(
        r,
        ids,
        none,
        origin,
        marked,
        below,
        0,
        Seq::empty(),
        Seq::empty(),
    );
    assert(body.result == Ok::<
        (Seq<LoweredView>, Seq<crate::format::NamedFormatView>),
        BuildErrorView,
    >(
        (
            Seq::<LoweredView>::empty() + single(scalar) + seq,
            Seq::<crate::format::NamedFormatView>::empty().push(
                crate::format::NamedFormatView {
                    name: crate::lowering::item_name(value),
                    value: scalar,
                },
            ).push(
                crate::format::NamedFormatView {
                    name: crate::lowering::item_name(field),
                    value: optional,
                },
            ),
        ),
    )) by {
        let start = Seq::<LoweredView>::empty();
        let names = Seq::<crate::format::NamedFormatView>::empty();
        lemma_one_field_on(r, ids, none, origin, marked, below, 0, start, names);
        let first = lowered(r, declared, none, origin, marked, below);
        assert(first == done(single(scalar), valued));
        let one = names.push(
            crate::format::NamedFormatView {
                name: crate::lowering::item_name(value),
                value: scalar,
            },
        );
        lemma_one_field_on(r, ids, none, origin, valued, below, 1, start + single(scalar), one);
        assert(start + single(scalar) + seq == (start + single(scalar)) + seq);
    }
    let named = crate::lowering::lowered_list(
        r,
        none,
        none,
        origin,
        empty,
        below,
        0,
        Seq::empty(),
        Seq::empty(),
    );
    assert(named == done((Seq::<LoweredView>::empty(), Seq::<FormatView>::empty()), empty));
    assert(monomorphized_name(base, Seq::<FormatView>::empty()) == Some(base));
    assert(!empty.contains_key(key));
    reveal_with_fuel(lowered, 2);
    let top = lowered(r, expr, none, origin, empty, depth);
    assert(top.result is Ok);
    let both = seq![
        crate::format::NamedFormatView { name: crate::lowering::item_name(value), value: scalar },
        crate::format::NamedFormatView {
            name: crate::lowering::item_name(field),
            value: optional,
        },
    ];
    assert(body.result->Ok_0.1 =~= both);
    assert(body.result->Ok_0.0 =~= seq![
        LoweredView { format: scalar, container: None },
        LoweredView { format: reference, container: None },
        LoweredView { format: optional, container: None },
    ]);
    assert(top.result->Ok_0 == body.result->Ok_0.0.push(
        LoweredView {
            format: reference,
            container: Some(crate::format::ContainerView::Struct(both)),
        },
    ));
    assert(top.result->Ok_0 =~= seq![
        LoweredView { format: scalar, container: None },
        LoweredView { format: reference, container: None },
        LoweredView { format: optional, container: None },
        LoweredView {
            format: reference,
            container: Some(
                crate::format::ContainerView::Struct(
                    seq![
                        crate::format::NamedFormatView {
                            name: crate::lowering::item_name(value),
                            value: scalar,
                        },
                        crate::format::NamedFormatView {
                            name: crate::lowering::item_name(field),
                            value: optional,
                        },
                    ],
                ),
            ),
        },
    ]);
}

/// The format of an argument that is a scalar: a built-in scalar with a
/// format, or plain text written as a path without arguments.
pub open spec fn scalar_format(arg: TypeView) -> Option<FormatView> {
    match arg {
        TypeView::Primitive(p) => crate::lowering::primitive_format(p),
        TypeView::NamedPath { name, id, args } => if last_segment(name) == "String"@ && args.len()
            == 0 {
            Some(FormatView::Str)
        } else {
            None
        },
        _ => None,
    }
}

/// A generic struct whose one field has the type of its parameter, reached
/// by a path with the one argument `arg`.
pub open spec fn wraps_its_parameter(
    r: Resolver,
    name: Seq<char>,
    id: u32,
    field_id: u32,
    origin: Seq<char>,
) -> bool {
    &&& last_segment(name) != "Box"@
    &&& last_segment(name) != "Vec"@
    &&& last_segment(name) != "Option"@
    &&& last_segment(name) != "String"@
    &&& last_segment(name) != "Result"@
    &&& resolved_place(r.documents@, id, origin) matches Ok(place)
    &&& r.item_at(place).kind matches ItemKind::Struct(StructShape::Plain(fields))
    &&& fields@ == seq![field_id]
    &&& span_crate(r.item_at(place).span) == Ok::<Seq<char>, BuildErrorView>(origin)
    &&& resolved_place(r.documents@, field_id, origin) matches Ok(field_place)
    &&& r.item_at(field_place).kind matches ItemKind::StructField(declared)
    &&& declared@ is GenericParameter
    &&& crate::lowering::override_of(r.item_at(field_place).attrs@) == Ok::<
        Option<Seq<char>>,
        BuildErrorView,
    >(None)
}

/// A scalar argument lowers to its format alone, and its lowering is stored.
pub proof fn lemma_scalar_lowers_to_its_format(
    r: Resolver,
    arg: TypeView,
    origin: Seq<char>,
    memo: Memo,
    depth: nat,
)
    requires
        depth >= 1,
        scalar_format(arg) is Some,
        !memo.contains_key(CacheKey { expr: arg, ambient: Seq::empty() }),
    ensures
        lowered(r, arg, Seq::empty(), origin, memo, depth) == done(
            single(scalar_format(arg)->0),
            memo.insert(
                CacheKey { expr: arg, ambient: Seq::empty() },
                CacheStateView::Cached(single(scalar_format(arg)->0)),
            ),
        ),
{
    reveal_strlit("String");
    reveal_strlit("Option");
    reveal_strlit("Box");
    reveal_strlit("Vec");
    assert("String"@.len() == 6 && "Box"@.len() == 3 && "Vec"@.len() == 3);
    assert("String"@[0] == 'S' && "Option"@[0] == 'O');
}

/// What an instance of a generic struct with the one field `field` lowers
/// to, where the argument has the format `f`: the format of the argument,
/// then the container, named after the struct and the argument, whose field
/// has the format of the argument.
pub open spec fn instance(base: Seq<char>, field: Item, f: FormatView) -> Seq<LoweredView> {
    seq![
        LoweredView { format: f, container: None },
        LoweredView {
            format: FormatView::NamedType(base + "_"@ + short_name(f).unwrap()),
            container: Some(
                crate::format::ContainerView::Struct(
                    seq![
                        crate::format::NamedFormatView {
                            name: crate::lowering::item_name(field),
                            value: f,
                        },
                    ],
                ),
            ),
        },
    ]
}

/// Whether `memo` holds nothing yet of the instance of the struct at `name`
/// with the argument `arg`: neither the instance, nor the argument, nor the
/// parameter under the argument.
pub open spec fn instance_is_new(
    memo: Memo,
    name: Seq<char>,
    id: u32,
    declared: TypeView,
    arg: TypeView,
) -> bool {
    &&& !memo.contains_key(
        CacheKey { expr: TypeView::NamedPath { name, id, args: seq![arg] }, ambient: Seq::empty() },
    )
    &&& !memo.contains_key(CacheKey { expr: arg, ambient: Seq::empty() })
    &&& !memo.contains_key(CacheKey { expr: declared, ambient: seq![arg] })
}

/// The memo after the instance of the struct at `name` with the argument
/// `arg` was lowered through `memo`.
pub open spec fn with_instance(
    memo: Memo,
    name: Seq<char>,
    id: u32,
    field: Item,
    arg: TypeView,
) -> Memo {
    let f = scalar_format(arg).unwrap();
    memo.insert(
        CacheKey { expr: arg, ambient: Seq::empty() },
        CacheStateView::Cached(single(f)),
    ).insert(
        CacheKey { expr: field.kind->StructField_0@, ambient: seq![arg] },
        CacheStateView::Cached(single(f)),
    ).insert(
        CacheKey { expr: TypeView::NamedPath { name, id, args: seq![arg] }, ambient: Seq::empty() },
        CacheStateView::Cached(instance(last_segment(name), field, f)),
    )
}

/// Each instance of a generic struct is a container of its own: a generic
/// struct whose one field has the type of its parameter, instantiated with a
/// scalar, lowers to the scalar's format and one container. The container is
/// named after the struct and the scalar, and its field has the scalar's
/// format. This holds through every memo that holds nothing of the instance
/// yet, and the memo gains the instance, its argument and its parameter.
pub proof fn lemma_instance_substitutes_its_argument(
    r: Resolver,
    name: Seq<char>,
    id: u32,
    field_id: u32,
    arg: TypeView,
    origin: Seq<char>,
    memo: Memo,
    depth: nat,
)
    requires
        depth >= 4,
        wraps_its_parameter(r, name, id, field_id, origin),
        scalar_format(arg) is Some,
        instance_is_new(
            memo,
            name,
            id,
            r.item_at(resolved_place(r.documents@, field_id, origin)->Ok_0).kind->StructField_0@,
            arg,
        ),
    ensures
        ({
            let f = scalar_format(arg)->0;
            let field = r.item_at(resolved_place(r.documents@, field_id, origin)->Ok_0);
            &&& short_name(f) is Some
            &&& lowered(
                r,
                TypeView::NamedPath { name, id, args: seq![arg] },
                Seq::empty(),
                origin,
                memo,
                depth,
            ) == done(
                instance(last_segment(name), field, f),
                with_instance(memo, name, id, field, arg),
            )
        }),
{
    let expr = TypeView::NamedPath { name, id, args: seq![arg] };
    let base = last_segment(name);
    let f = scalar_format(arg)->0;
    let none = Seq::<TypeView>::empty();
    let key = CacheKey { expr, ambient: none };
    let arg_key = CacheKey { expr: arg, ambient: none };
    let empty = memo;
    let below = (depth - 1) as nat;
    lemma_scalar_lowers_to_its_format(r, arg, origin, empty, below);
    let first = empty.insert(arg_key, CacheStateView::Cached(single(f)));
    assert(short_name(f) is Some);
    assert(expr->NamedPath_args.len() == 1);
    assert(arg_key != key) by {
        if arg is NamedPath {
            assert(arg->NamedPath_args.len() == 0);
        }
    }
    let named = crate::lowering::lowered_list(
        r,
        seq![arg],
        none,
        origin,
        empty,
        below,
        0,
        Seq::empty(),
        Seq::empty(),
    );
    assert(named == done((Seq::<LoweredView>::empty() + single(f), seq![f]), first)) by {
        reveal_with_fuel(crate::lowering::lowered_list, 3);
        assert(Seq::<FormatView>::empty().push(single(f).last().format) =~= seq![f]);
    }
    assert(monomorphized_name(base, seq![f]) == Some(base + "_"@ + short_name(f)->0)) by {
        reveal_with_fuel(monomorphized_name, 2);
        assert(seq![f].drop_last() =~= Seq::<FormatView>::empty());
    }
    let marked = first.insert(key, CacheStateView::Pending);
    let place = resolved_place(r.documents@, id, origin)->Ok_0;
    let fields = r.item_at(place).kind->Struct_0->Plain_0;
    let ids = crate::lowering::all_present(fields@);
    assert(ids.len() == 1 && ids[0] == Some(field_id));
    let field = r.item_at(resolved_place(r.documents@, field_id, origin)->Ok_0);
    let declared = field.kind->StructField_0@;
    let inside = seq![arg];
    assert(field_ambient(seq![arg], none) == inside);
    let parameter_key = CacheKey { expr: declared, ambient: inside };
    assert(parameter_key != key && parameter_key != arg_key);
    assert(lowered(r, arg, none, origin, marked, (below - 1) as nat) == done(single(f), marked));
    let substituted = lowered(r, declared, inside, origin, marked, below);
    let filled = marked.insert(parameter_key, CacheStateView::Cached(single(f)));
    assert(substituted == done(single(f), filled)) by {
        reveal_with_fuel(lowered, 2);
    }
    let body = crate::lowering::lowered_fields(
        r,
        ids,
        inside,
        origin,
        marked,
        below,
        0,
        Seq::empty(),
        Seq::empty(),
    );
    assert(body == done(
        (
            Seq::<LoweredView>::empty() + single(f),
            Seq::<crate::format::NamedFormatView>::empty().push(
                crate::format::NamedFormatView {
                    name: crate::lowering::item_name(field),
                    value: f,
                },
            ),
        ),
        filled,
    )) by {
        reveal_with_fuel(crate::lowering::lowered_fields, 3);
    }
    reveal_with_fuel(lowered, 2);
    let top = lowered(r, expr, none, origin, empty, depth);
    assert(top.result is Ok);
    assert(top.result->Ok_0 =~= instance(base, field, f));
    assert(top.memo == filled.insert(key, CacheStateView::Cached(top.result->Ok_0)));
    assert(top.memo =~= with_instance(memo, name, id, field, arg));
}

/// Two instances of one generic struct, lowered one after the other through
/// one memo, are two containers: each result ends with a definition of its
/// own, and the two are named differently.
pub proof fn lemma_instances_share_a_memo(
    r: Resolver,
    name: Seq<char>,
    id: u32,
    field_id: u32,
    one: TypeView,
    other: TypeView,
    origin: Seq<char>,
    depth: nat,
)
    requires
        depth >= 4,
        wraps_its_parameter(r, name, id, field_id, origin),
        scalar_format(one) is Some,
        scalar_format(other) is Some,
        short_name(scalar_format(one)->0) != short_name(scalar_format(other)->0),
    ensures
        ({
            let field = r.item_at(resolved_place(r.documents@, field_id, origin)->Ok_0);
            let first = lowered(
                r,
                TypeView::NamedPath { name, id, args: seq![one] },
                Seq::empty(),
                origin,
                Map::empty(),
                depth,
            );
            let second = lowered(
                r,
                TypeView::NamedPath { name, id, args: seq![other] },
                Seq::empty(),
                origin,
                first.memo,
                depth,
            );
            &&& first.result == Ok::<Seq<LoweredView>, BuildErrorView>(
                instance(last_segment(name), field, scalar_format(one)->0),
            )
            &&& second.result == Ok::<Seq<LoweredView>, BuildErrorView>(
                instance(last_segment(name), field, scalar_format(other)->0),
            )
            &&& first.result->Ok_0.last().container is Some
            &&& second.result->Ok_0.last().container is Some
            &&& first.result->Ok_0.last().format != second.result->Ok_0.last().format
        }),
{
    let field = r.item_at(resolved_place(r.documents@, field_id, origin)->Ok_0);
    let declared = field.kind->StructField_0@;
    let empty = Map::<CacheKey, CacheStateView>::empty();
    lemma_instance_substitutes_its_argument(r, name, id, field_id, one, origin, empty, depth);
    let first = with_instance(empty, name, id, field, one);
    let none = Seq::<TypeView>::empty();
    assert(one != other);
    assert(seq![one][0] == one && seq![other][0] == other);
    assert(seq![one] != seq![other]);
    assert(seq![one].len() == 1 && seq![other].len() == 1 && none.len() == 0);
    if other is NamedPath {
        assert(other->NamedPath_args.len() == 0);
    }
    if one is NamedPath {
        assert(one->NamedPath_args.len() == 0);
    }
    assert(instance_is_new(first, name, id, declared, other));
    lemma_instance_substitutes_its_argument(r, name, id, field_id, other, origin, first, depth);
    lemma_instances_have_distinct_names(
        last_segment(name),
        scalar_format(one)->0,
        scalar_format(other)->0,
    );
    reveal_with_fuel(monomorphized_name, 2);
    assert(seq![scalar_format(one)->0].drop_last() =~= Seq::<FormatView>::empty());
    assert(seq![scalar_format(other)->0].drop_last() =~= Seq::<FormatView>::empty());
}

/// The raw declarations of the entry points among `items`, in the order of
/// the items; none where an entry point cannot be declared.
pub open spec fn entry_lines(items: Seq<Item>) -> Option<Seq<Seq<char>>>
    decreases items.len(),
{
    if items.len() == 0 {
        Some(Seq::empty())
    } else {
        with_entry_line(entry_lines(items.drop_last()), items.last())
    }
}

/// The declarations `found` with that of `item`, where it is an entry point.
pub open spec fn with_entry_line(found: Option<Seq<Seq<char>>>, item: Item) -> Option<
    Seq<Seq<char>>,
> {
    if !picks(Selection::EntryPoints, item) {
        found
    } else {
        match (found, item.kind) {
            (Some(acc), ItemKind::Function(sig)) => match entry_declaration(item_name(item), sig) {
                Some(d) => Some(acc.push(d)),
                None => None,
            },
            _ => None,
        }
    }
}

/// Whether `a` and `b` hold the same declarations, each as often as the
/// other, or both hold none.
pub open spec fn same_lines(a: Option<Seq<Seq<char>>>, b: Option<Seq<Seq<char>>>) -> bool {
    match (a, b) {
        (Some(x), Some(y)) => x.to_multiset() == y.to_multiset(),
        (None, None) => true,
        _ => false,
    }
}

/// The declarations of the first entry points do not depend on what is
/// picked after them.
proof fn lemma_declarations_of_a_prefix(items: Seq<Item>, p: Seq<int>, q: Seq<int>, m: int)
    requires
        0 <= m <= p.len(),
        m <= q.len(),
        forall|i: int| 0 <= i < m ==> p[i] == q[i],
    ensures
        declarations(items, p, m) == declarations(items, q, m),
    decreases m,
{
    if m > 0 {
        lemma_declarations_of_a_prefix(items, p, q, m - 1);
    }
}

/// The declarations of the entry points that are picked among the first `n`
/// items are those of the items one by one.
proof fn lemma_declarations_item_by_item(items: Seq<Item>, n: int)
    requires
        0 <= n <= items.len(),
    ensures
        ({
            let picked = selected(items, Selection::EntryPoints, n);
            declarations(items, picked, picked.len() as int) == entry_lines(items.subrange(0, n))
        }),
    decreases n,
{
    if n > 0 {
        lemma_declarations_item_by_item(items, n - 1);
        let before = selected(items, Selection::EntryPoints, n - 1);
        let picked = selected(items, Selection::EntryPoints, n);
        assert(items.subrange(0, n).drop_last() =~= items.subrange(0, n - 1));
        assert(items.subrange(0, n).last() == items[n - 1]);
        if picks(Selection::EntryPoints, items[n - 1]) {
            assert(picked == before.push(n - 1));
            lemma_declarations_of_a_prefix(items, picked, before, before.len() as int);
        }
    } else {
        assert(items.subrange(0, n) =~= Seq::<Item>::empty());
    }
}

/// Taking one item out takes its declaration out, and nothing else.
proof fn lemma_entry_lines_without(items: Seq<Item>, k: int)
    requires
        0 <= k < items.len(),
    ensures
        same_lines(entry_lines(items), with_entry_line(entry_lines(items.remove(k)), items[k])),
    decreases items.len(),
{
    broadcast use vstd::seq_lib::group_to_multiset_ensures;

    let rest = items.remove(k);
    if k == items.len() - 1 {
        assert(rest =~= items.drop_last());
    } else {
        lemma_entry_lines_without(items.drop_last(), k);
        assert(rest.drop_last() =~= items.drop_last().remove(k));
        assert(rest.last() == items.last());
        assert(items.drop_last()[k] == items[k]);
        let inner = entry_lines(items.drop_last().remove(k));
        let whole = entry_lines(items.drop_last());
        lemma_entry_lines_commute(inner, whole, items[k], items.last());
    }
}

/// Two items add their declarations in either order to the same effect.
proof fn lemma_entry_lines_commute(
    inner: Option<Seq<Seq<char>>>,
    whole: Option<Seq<Seq<char>>>,
    x: Item,
    y: Item,
)
    requires
        same_lines(whole, with_entry_line(inner, x)),
    ensures
        same_lines(with_entry_line(whole, y), with_entry_line(with_entry_line(inner, y), x)),
{
    broadcast use vstd::seq_lib::group_to_multiset_ensures;

    let left = with_entry_line(whole, y);
    let right = with_entry_line(with_entry_line(inner, y), x);
    if left is Some && right is Some {
        assert(left->0.to_multiset() =~= right->0.to_multiset());
    }
}

/// The declarations of the entry points of two lists that hold the same
/// items, each as often as the other, are the same but for their order.
pub proof fn lemma_entry_lines_of_the_same_items(a: Seq<Item>, b: Seq<Item>)
    requires
        a.to_multiset() == b.to_multiset(),
    ensures
        same_lines(entry_lines(a), entry_lines(b)),
    decreases a.len(),
{
    broadcast use vstd::seq_lib::group_to_multiset_ensures;

    a.to_multiset_ensures();
    b.to_multiset_ensures();
    assert(a.len() == b.len());
    if a.len() > 0 {
        let x = a.last();
        assert(a.to_multiset().count(x) > 0) by {
            assert(a.contains(x));
        }
        assert(b.contains(x));
        let k = choose|k: int| 0 <= k < b.len() && b[k] == x;
        let rest = b.remove(k);
        assert(a.drop_last() =~= a.remove(a.len() - 1));
        assert(a.drop_last().to_multiset() =~= rest.to_multiset());
        lemma_entry_lines_of_the_same_items(a.drop_last(), rest);
        lemma_entry_lines_without(b, k);
        let left = entry_lines(a.drop_last());
        let right = entry_lines(rest);
        if with_entry_line(left, x) is Some && with_entry_line(right, x) is Some {
            assert(with_entry_line(left, x)->0.to_multiset() =~= with_entry_line(
                right,
                x,
            )->0.to_multiset());
        }
    }
}

/// A pass does not depend on the order of the items of the document: two
/// primary documents that hold the same items, each as often as the other,
/// have the same raw declarations, line for line.
pub proof fn lemma_declarations_ignore_the_order_of_items(first: Resolver, second: Resolver)
    requires
        first.wf(),
        second.wf(),
        first.documents@[0].items@.to_multiset() == second.documents@[0].items@.to_multiset(),
    ensures
        crate::emit::ordered_declarations(first) == crate::emit::ordered_declarations(second),
{
    let a = first.documents@[0].items@;
    let b = second.documents@[0].items@;
    lemma_declarations_item_by_item(a, a.len() as int);
    lemma_declarations_item_by_item(b, b.len() as int);
    assert(a.subrange(0, a.len() as int) =~= a);
    assert(b.subrange(0, b.len() as int) =~= b);
    lemma_entry_lines_of_the_same_items(a, b);
    if entry_lines(a) is Some {
        let x = entry_lines(a)->0;
        let y = entry_lines(b)->0;
        crate::order::lemma_input_order_does_not_show(x, y);
        crate::order::lemma_ordered_is_sorted(x, x.len() as int);
        crate::order::lemma_ordered_is_sorted(y, y.len() as int);
        assert(crate::exports::arranged(x, crate::order::ordered(x, x.len() as int))
            =~= crate::order::sorted_names(x));
        assert(crate::exports::arranged(y, crate::order::ordered(y, y.len() as int))
            =~= crate::order::sorted_names(y));
    }
}

/// Places that are ordered by name are as many as before, and the names of
/// their items come in lexicographic order.
pub proof fn lemma_members_are_sorted(r: Resolver, places: Seq<(int, int)>)
    ensures
        crate::exports::by_name(r, places).len() == places.len(),
        forall|i: int, j: int|
            0 <= i <= j < places.len() ==> crate::text::text_le(
                crate::lowering::item_name(
                    r.item_at(#[trigger] crate::exports::by_name(r, places)[i]),
                ),
                crate::lowering::item_name(
                    r.item_at(#[trigger] crate::exports::by_name(r, places)[j]),
                ),
            ),
{
    let names = crate::exports::member_names(r, places);
    let order = crate::order::ordered(names, places.len() as int);
    crate::order::lemma_ordered_is_sorted(names, places.len() as int);
    let out = crate::exports::by_name(r, places);
    assert forall|i: int, j: int| 0 <= i <= j < places.len() implies crate::text::text_le(
        crate::lowering::item_name(r.item_at(#[trigger] out[i])),
        crate::lowering::item_name(r.item_at(#[trigger] out[j])),
    ) by {
        assert(0 <= order[i] < places.len() && 0 <= order[j] < places.len());
        assert(out[i] == places[order[i]] && out[j] == places[order[j]]);
        assert(names[order[i]] == crate::lowering::item_name(r.item_at(places[order[i]])));
        assert(names[order[j]] == crate::lowering::item_name(r.item_at(places[order[j]])));
    }
}

/// The raw declarations of a pass come in lexicographic order.
pub proof fn lemma_declarations_are_sorted(r: Resolver)
    requires
        crate::emit::ordered_declarations(r) is Some,
    ensures
        forall|i: int, j: int|
            0 <= i <= j < crate::emit::ordered_declarations(r)->0.len() ==> crate::text::text_le(
                #[trigger] crate::emit::ordered_declarations(r)->0[i],
                #[trigger] crate::emit::ordered_declarations(r)->0[j],
            ),
{
    let items = r.documents@[0].items@;
    let picked = crate::exports::selected(
        items,
        crate::exports::Selection::EntryPoints,
        items.len() as int,
    );
    let found = crate::emit::declarations(items, picked, picked.len() as int)->0;
    let order = crate::order::ordered(found, found.len() as int);
    crate::order::lemma_ordered_is_sorted(found, found.len() as int);
    let out = crate::emit::ordered_declarations(r)->0;
    assert forall|i: int, j: int| 0 <= i <= j < out.len() implies crate::text::text_le(
        #[trigger] out[i],
        #[trigger] out[j],
    ) by {
        assert(0 <= order[i] < found.len() && 0 <= order[j] < found.len());
        assert(out[i] == found[order[i]] && out[j] == found[order[j]]);
    }
}

/// The names of groups that all have one are as many as the groups, and each
/// is the name of its group.
pub proof fn lemma_group_names(r: Resolver, groups: Seq<crate::exports::GroupView>, n: int)
    requires
        0 <= n <= groups.len(),
        crate::exports::group_names(r, groups, n) is Some,
    ensures
        crate::exports::group_names(r, groups, n)->0.len() == n,
        forall|k: int|
            0 <= k < n ==> crate::exports::group_name(r, groups[k]) == Some(
                #[trigger] crate::exports::group_names(r, groups, n)->0[k],
            ),
    decreases n,
{
    if n > 0 {
        lemma_group_names(r, groups, n - 1);
    }
}

/// The groups of a pass are ordered by the names of their types, and the
/// members of each group by their names.
pub proof fn lemma_groups_are_sorted(r: Resolver, origin: Seq<char>)
    requires
        crate::exports::exported_groups(r, origin) is Ok,
    ensures
        forall|i: int, j: int|
            0 <= i <= j < crate::exports::exported_groups(r, origin)->Ok_0.len() ==> {
                let a = crate::exports::group_name(
                    r,
                    #[trigger] crate::exports::exported_groups(r, origin)->Ok_0[i],
                );
                let b = crate::exports::group_name(
                    r,
                    #[trigger] crate::exports::exported_groups(r, origin)->Ok_0[j],
                );
                a is Some && b is Some && crate::text::text_le(a->0, b->0)
            },
{
    let items = r.documents@[0].items@;
    let impls = crate::exports::selected(
        items,
        crate::exports::Selection::RelevantImpls,
        items.len() as int,
    );
    let groups = crate::exports::grouped(r, origin, impls, impls.len() as int)->Ok_0;
    let names = crate::exports::group_names(r, groups, groups.len() as int)->0;
    lemma_group_names(r, groups, groups.len() as int);
    let order = crate::order::ordered(names, names.len() as int);
    crate::order::lemma_ordered_is_sorted(names, names.len() as int);
    let inner = crate::exports::with_ordered_members(r, groups);
    let out = crate::exports::exported_groups(r, origin)->Ok_0;
    assert forall|i: int, j: int| 0 <= i <= j < out.len() implies {
        let a = crate::exports::group_name(r, #[trigger] out[i]);
        let b = crate::exports::group_name(r, #[trigger] out[j]);
        a is Some && b is Some && crate::text::text_le(a->0, b->0)
    } by {
        assert(0 <= order[i] < groups.len() && 0 <= order[j] < groups.len());
        assert(out[i] == inner[order[i]] && out[j] == inner[order[j]]);
        assert(inner[order[i]].impl_index == groups[order[i]].impl_index);
        assert(inner[order[j]].impl_index == groups[order[j]].impl_index);
        assert(crate::exports::group_name(r, groups[order[i]]) == Some(names[order[i]]));
        assert(crate::exports::group_name(r, groups[order[j]]) == Some(names[order[j]]));
    }
}

/// At the boundary every outcome but a returned payload is normalized to the
/// one error shape, and a returned payload is not.
pub proof fn lemma_every_failure_is_normalized(outcome: crate::abi::CallOutcome)
    ensures
        crate::abi::normalized(outcome) is None <==> outcome is Returned,
{
}

/// A call across the boundary round-trips, whatever happened inside the
/// entry point: from the buffer that is handed out the caller reads the
/// payload where the implementation returned one, and else the normalized
/// error, whose message is that of the implementation's own error, the text
/// of an intercepted defect, or the empty message for a defect without text.
/// Messages are shorter than 2 to the power of 64 bytes, as every text in
/// memory is.
pub proof fn lemma_every_call_round_trips(outcome: crate::abi::CallOutcome, payload: i64)
    requires
        crate::abi::normalized(outcome) matches Some(message) ==> vstd::utf8::encode_utf8(
            message,
        ).len() < crate::wire::radix(8),
    ensures
        crate::wire::read_outcome(
            crate::wire::wire_outcome(crate::example::reported(outcome, payload)),
        ) == Some(crate::example::reported(outcome, payload)),
        outcome is Returned ==> crate::example::reported(outcome, payload) == Ok::<
            i64,
            Seq<char>,
        >(payload),
        outcome matches crate::abi::CallOutcome::BodyFailed(m) ==> crate::example::reported(
            outcome,
            payload,
        ) == Err::<i64, Seq<char>>(m@),
        outcome matches crate::abi::CallOutcome::Defect(p) ==> crate::example::reported(
            outcome,
            payload,
        ) == Err::<i64, Seq<char>>(crate::abi::defect_message(p)),
{
    crate::wire::lemma_outcome_round_trip(crate::example::reported(outcome, payload));
}

/// A call through the entry point of the example comes back with its
/// payload: for an argument buffer that holds an integer, the buffer that is
/// handed out is the index of the success variant and then the eight bytes
/// of the argument, since the function hands its input back.
pub proof fn lemma_call_returns_the_payload(input: Seq<u8>)
    requires
        input.len() >= 8,
    ensures
        crate::example::response(input) == crate::wire::le_bytes(0, 4) + input.subrange(0, 8),
{
    crate::wire::lemma_integer_round_trip(input.subrange(0, 8));
}

/// A call through the entry point of the example with an argument buffer
/// that holds no integer comes back with the normalized error: the index of
/// the error variant and then the message, which says that decoding failed
/// and why.
pub proof fn lemma_call_reports_a_malformed_buffer(input: Seq<u8>)
    requires
        input.len() < 8,
    ensures
        crate::example::response(input) == crate::wire::le_bytes(1, 4) + crate::wire::wire_text(
            "Bincode Decode Error: "@ + crate::wire::decode_failure(input),
        ),
        crate::example::answer(input) matches Err(message) && message.len() > 0,
{
    reveal_strlit("Bincode Decode Error: ");
}

/// Whether an item of this kind is lowered to a container: a struct with
/// named fields or none, or an enum.
pub open spec fn is_container(kind: ItemKind) -> bool {
    match kind {
        ItemKind::Struct(StructShape::Tuple) => false,
        ItemKind::Struct(_) => true,
        ItemKind::Enum(_) => true,
        _ => false,
    }
}

} // verus!
