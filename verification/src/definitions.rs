//! The registry pass: every type of every exported signature is lowered, and
//! the named containers that the lowerings define are gathered in one
//! registry.

use crate::cache::TypeCache;
use crate::config::Config;
use crate::document::{Item, ItemKind, Parameter};
use crate::error::{BuildError, BuildErrorView};
use crate::exports::{
    collect_functions, free_standing, function_members, impl_members, is_free_standing_impl,
    is_relevant_impl, relevant_impl, valid_places,
};
use crate::format::ContainerView;
use crate::lower::{lower_type, DEPTH_LIMIT};
use crate::lowering::{done, failed, lowered, Memo, Threaded};
use crate::registry::{registered, Registry};
use crate::resolver::{place_pairs, Resolver};
use crate::types::{TypeExpression, TypeView};
use vstd::prelude::*;

verus! {

/// The types of the first `n` parameters.
pub open spec fn input_types(inputs: Seq<Parameter>, n: int) -> Seq<TypeView>
    decreases n,
{
    if n <= 0 || n > inputs.len() {
        Seq::empty()
    } else {
        input_types(inputs, n - 1).push(inputs[n - 1].ty@)
    }
}

/// The types of the signature of a function: those of its inputs, then that
/// of its output. An item that is no function has none.
pub open spec fn function_types(item: Item) -> Seq<TypeView> {
    match item.kind {
        ItemKind::Function(sig) => {
            let ins = input_types(sig.inputs@, sig.inputs@.len() as int);
            match sig.output {
                Some(t) => ins.push(t@),
                None => ins,
            }
        },
        _ => Seq::empty(),
    }
}

/// The types of the signatures of the functions at the first `n` places.
pub open spec fn place_types(r: Resolver, places: Seq<(int, int)>, n: int) -> Seq<TypeView>
    decreases n,
{
    if n <= 0 || n > places.len() {
        Seq::empty()
    } else {
        place_types(r, places, n - 1) + function_types(r.item_at(places[n - 1]))
    }
}

/// The types of the exported signatures among the first `n` items of the
/// primary document, in the order of the document: an exported block gives
/// the types of its functions, an exported function its own.
pub open spec fn signature_types(r: Resolver, origin: Seq<char>, n: int) -> Result<
    Seq<TypeView>,
    BuildErrorView,
>
    decreases n,
{
    let items = r.documents@[0].items@;
    if n <= 0 || n > items.len() {
        Ok(Seq::empty())
    } else {
        match signature_types(r, origin, n - 1) {
            Err(e) => Err(e),
            Ok(acc) => {
                let item = items[n - 1];
                if relevant_impl(item) {
                    let ids = impl_members(r, n - 1);
                    match function_members(r, origin, ids, ids.len() as int) {
                        Err(e) => Err(e),
                        Ok(ms) => Ok(acc + place_types(r, ms, ms.len() as int)),
                    }
                } else if free_standing(item) {
                    Ok(acc + function_types(item))
                } else {
                    Ok(acc)
                }
            },
        }
    }
}

/// The first `n` types without repetitions in a row: of each run of equal
/// types the first stays.
pub open spec fn deduplicated(types: Seq<TypeView>, n: int) -> Seq<TypeView>
    decreases n,
{
    if n <= 0 || n > types.len() {
        Seq::empty()
    } else if n >= 2 && types[n - 1] == types[n - 2] {
        deduplicated(types, n - 1)
    } else {
        deduplicated(types, n - 1).push(types[n - 1])
    }
}

/// The registry after the first `n` types have been lowered, one after the
/// other through the memo, and their definitions written into `reg`.
pub open spec fn defined(
    r: Resolver,
    types: Seq<TypeView>,
    origin: Seq<char>,
    memo: Memo,
    reg: Map<Seq<char>, ContainerView>,
    n: int,
) -> Threaded<Map<Seq<char>, ContainerView>>
    decreases n,
{
    if n <= 0 || n > types.len() {
        done(reg, memo)
    } else {
        let before = defined(r, types, origin, memo, reg, n - 1);
        match before.result {
            Err(e) => before,
            Ok(so_far) => {
                let o = lowered(
                    r,
                    types[n - 1],
                    Seq::empty(),
                    origin,
                    before.memo,
                    DEPTH_LIMIT as nat,
                );
                match o.result {
                    Err(e) => failed(e, o.memo),
                    Ok(seq) => done(registered(so_far, seq, seq.len() as int), o.memo),
                }
            },
        }
    }
}

/// The registry of the named containers of all exported signatures.
pub open spec fn type_definitions(r: Resolver, origin: Seq<char>, memo: Memo) -> Threaded<
    Map<Seq<char>, ContainerView>,
> {
    match signature_types(r, origin, r.documents@[0].items@.len() as int) {
        Err(e) => failed(e, memo),
        Ok(all) => {
            let types = deduplicated(all, all.len() as int);
            defined(r, types, origin, memo, Map::empty(), types.len() as int)
        },
    }
}

/// A failure among the first `n` items is the failure of any longer run.
pub proof fn lemma_signatures_fail(r: Resolver, origin: Seq<char>, n: int, m: int)
    requires
        0 <= n <= m <= r.documents@[0].items@.len(),
        signature_types(r, origin, n) is Err,
    ensures
        signature_types(r, origin, m) == signature_types(r, origin, n),
    decreases m - n,
{
    if n < m {
        lemma_signatures_fail(r, origin, n, m - 1);
    }
}

/// A failure among the first `n` types is the failure of any longer run.
pub proof fn lemma_definitions_fail(
    r: Resolver,
    types: Seq<TypeView>,
    origin: Seq<char>,
    memo: Memo,
    reg: Map<Seq<char>, ContainerView>,
    n: int,
    m: int,
)
    requires
        0 <= n <= m <= types.len(),
        defined(r, types, origin, memo, reg, n).result is Err,
    ensures
        defined(r, types, origin, memo, reg, m) == defined(r, types, origin, memo, reg, n),
    decreases m - n,
{
    if n < m {
        lemma_definitions_fail(r, types, origin, memo, reg, n, m - 1);
    }
}

/// The views of the expressions that `v` refers to.
pub open spec fn referred(v: Seq<&TypeExpression>) -> Seq<TypeView> {
    Seq::new(v.len(), |i: int| (*v[i])@)
}

/// Appends the types of the signature of `item` to `out`.
fn push_function_types<'a>(out: &mut Vec<&'a TypeExpression>, item: &'a Item)
    ensures
        referred(final(out)@) == referred(old(out)@) + function_types(*item),
{
    let ghost before = referred(out@);
    match &item.kind {
        ItemKind::Function(sig) => {
            let mut i: usize = 0;
            assert(referred(out@) =~= before + input_types(sig.inputs@, 0));
            while i < sig.inputs.len()
                invariant
                    i <= sig.inputs@.len(),
                    referred(out@) == before + input_types(sig.inputs@, i as int),
                decreases sig.inputs@.len() - i,
            {
                let ghost so_far = referred(out@);
                out.push(&sig.inputs[i].ty);
                assert(referred(out@) =~= so_far.push(sig.inputs@[i as int].ty@));
                i += 1;
                assert(referred(out@) =~= before + input_types(sig.inputs@, i as int));
            }
            match &sig.output {
                Some(t) => {
                    let ghost so_far = referred(out@);
                    out.push(t);
                    assert(referred(out@) =~= so_far.push(t@));
                    assert(referred(out@) =~= before + function_types(*item));
                },
                None => {},
            }
        },
        _ => {
            assert(referred(out@) =~= before + function_types(*item));
        },
    }
}

/// The registry of the named containers of all signatures that the primary
/// document exports, seen from the module `origin`.
pub fn generate_type_definitions(resolver: &Resolver, origin: &str, memo: &mut TypeCache) -> (r:
    Result<Registry, BuildError>)
    requires
        resolver.wf(),
    ensures
        final(memo)@ == type_definitions(*resolver, origin@, old(memo)@).memo,
        match r {
            Ok(reg) => reg.wf() && type_definitions(*resolver, origin@, old(memo)@).result == Ok::<
                Map<Seq<char>, ContainerView>,
                BuildErrorView,
            >(reg@),
            Err(e) => type_definitions(*resolver, origin@, old(memo)@).result == Err::<
                Map<Seq<char>, ContainerView>,
                BuildErrorView,
            >(e@),
        },
{
    let items = &resolver.documents[0].items;
    let mut all: Vec<&TypeExpression> = Vec::new();
    let mut n: usize = 0;
    assert(referred(all@) =~= Seq::empty());
    while n < items.len()
        invariant
            n <= items@.len(),
            resolver.wf(),
            *items == resolver.documents@[0].items,
            memo@ == old(memo)@,
            signature_types(*resolver, origin@, n as int) == Ok::<Seq<TypeView>, BuildErrorView>(
                referred(all@),
            ),
        decreases items@.len() - n,
    {
        let item = &items[n];
        if is_relevant_impl(item) {
            let none: Vec<u32> = Vec::new();
            let ids: &Vec<u32> = match &item.kind {
                ItemKind::Impl { items, .. } => items,
                _ => &none,
            };
            assert(ids@ =~= impl_members(*resolver, n as int));
            let members = match collect_functions(resolver, origin, ids) {
                Err(e) => {
                    proof {
                        lemma_signatures_fail(*resolver, origin@, n + 1, items@.len() as int);
                    }
                    return Err(e);
                },
                Ok(m) => m,
            };
            let ghost before = referred(all@);
            let ghost pairs = place_pairs(members@);
            let mut k: usize = 0;
            assert(referred(all@) =~= before + place_types(*resolver, pairs, 0));
            while k < members.len()
                invariant
                    k <= members@.len(),
                    resolver.wf(),
                    valid_places(*resolver, members@),
                    pairs == place_pairs(members@),
                    referred(all@) == before + place_types(*resolver, pairs, k as int),
                decreases members@.len() - k,
            {
                let place = members[k];
                assert(pairs[k as int] == (place.document as int, place.item as int));
                let ghost so_far = referred(all@);
                push_function_types(&mut all, resolver.item(place));
                k += 1;
                assert(referred(all@) =~= before + place_types(*resolver, pairs, k as int));
            }
        } else if is_free_standing_impl(item) {
            push_function_types(&mut all, item);
        }
        n += 1;
    }
    let ghost every = referred(all@);
    let mut types: Vec<&TypeExpression> = Vec::new();
    let mut i: usize = 0;
    assert(referred(types@) =~= Seq::empty());
    while i < all.len()
        invariant
            i <= all@.len(),
            every == referred(all@),
            referred(types@) == deduplicated(every, i as int),
        decreases all@.len() - i,
    {
        let repeated = i >= 1 && all[i].same_as(all[i - 1]);
        if !repeated {
            let ghost so_far = referred(types@);
            types.push(all[i]);
            assert(referred(types@) =~= so_far.push(every[i as int]));
        }
        i += 1;
    }
    let ghost wanted = referred(types@);
    let ghost start = memo@;
    let mut registry = Registry::new();
    let mut j: usize = 0;
    while j < types.len()
        invariant
            j <= types@.len(),
            registry.wf(),
            resolver.wf(),
            wanted == referred(types@),
            start == old(memo)@,
            signature_types(
                *resolver,
                origin@,
                resolver.documents@[0].items@.len() as int,
            ) == Ok::<Seq<TypeView>, BuildErrorView>(every),
            wanted == deduplicated(every, every.len() as int),
            defined(*resolver, wanted, origin@, start, Map::empty(), j as int) == done::<
                Map<Seq<char>, ContainerView>,
            >(registry@, memo@),
        decreases types@.len() - j,
    {
        assert(wanted[j as int] == (*types@[j as int])@);
        match lower_type(resolver, types[j], origin, memo) {
            Err(e) => {
                proof {
                    lemma_definitions_fail(
                        *resolver,
                        wanted,
                        origin@,
                        start,
                        Map::empty(),
                        j + 1,
                        wanted.len() as int,
                    );
                }
                return Err(e);
            },
            Ok(seq) => {
                registry.register(seq);
            },
        }
        j += 1;
    }
    Ok(registry)
}

impl Config {
    /// The registry of the named containers of all signatures that the
    /// primary document of `resolver` exports.
    pub fn type_definitions(&self, resolver: &Resolver, memo: &mut TypeCache) -> (r: Result<
        Registry,
        BuildError,
    >)
        requires
            resolver.wf(),
        ensures
            final(memo)@ == type_definitions(*resolver, self.parent_crate@, old(memo)@).memo,
            match r {
                Ok(reg) => reg.wf() && type_definitions(
                    *resolver,
                    self.parent_crate@,
                    old(memo)@,
                ).result == Ok::<Map<Seq<char>, ContainerView>, BuildErrorView>(reg@),
                Err(e) => type_definitions(*resolver, self.parent_crate@, old(memo)@).result
                    == Err::<Map<Seq<char>, ContainerView>, BuildErrorView>(e@),
            },
    {
        generate_type_definitions(resolver, self.parent_crate.as_str(), memo)
    }
}

} // verus!
