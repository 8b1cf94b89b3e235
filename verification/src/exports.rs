//! Which callables a module exports, and in which order they are emitted.
//!
//! The primary document marks what is exported. Methods are grouped by the
//! type they belong to. Groups and their members are ordered by name, so that
//! the output does not depend on the order of the document.

use crate::document::{
    first_where, lemma_first_where_absent, lemma_first_where_found, Item, ItemKind,
};
use crate::error::{BuildError, BuildErrorView};
use crate::lowering::item_name;
use crate::order::{indices, ordered, sort_order, within};
use crate::resolver::{place_pairs, resolved_place, Place, Resolver};
use crate::text::{last_segment, name_without_path, push_text, same_text, views};
use crate::types::{TypeExpression, TypeView};
use vstd::prelude::*;

verus! {

/// The attribute that marks an item as exported.
pub open spec fn export_marker() -> Seq<char> {
    "#[cfg(not(generated_extern_impl))]"@
}

/// The attributes that mark an item as exported.
pub open spec fn is_marker() -> spec_fn(String) -> bool {
    |a: String| a@ == export_marker()
}

/// Whether the item is marked as exported.
pub open spec fn exported(item: Item) -> bool {
    first_where(item.attrs@, is_marker()) is Some
}

/// Whether the item is an implementation block that is exported.
pub open spec fn relevant_impl(item: Item) -> bool {
    exported(item) && item.kind is Impl
}

/// Whether the item is a function outside of any block that is exported.
pub open spec fn free_standing(item: Item) -> bool {
    exported(item) && item.kind is Function
}

/// Whether the item is a function with the flat C calling convention: an
/// entry point of the boundary.
pub open spec fn entry_point(item: Item) -> bool {
    item.kind matches ItemKind::Function(sig) && sig.is_extern_c
}

/// What to pick from a document.
#[derive(Debug, Clone, Copy, PartialEq, Eq, Structural)]
pub enum Selection {
    RelevantImpls,
    FreeStanding,
    EntryPoints,
}

/// Whether `which` picks `item`.
pub open spec fn picks(which: Selection, item: Item) -> bool {
    match which {
        Selection::RelevantImpls => relevant_impl(item),
        Selection::FreeStanding => free_standing(item),
        Selection::EntryPoints => entry_point(item),
    }
}

/// The indices of the items that `which` picks among the first `n` items.
pub open spec fn selected(items: Seq<Item>, which: Selection, n: int) -> Seq<int>
    decreases n,
{
    if n <= 0 || n > items.len() {
        Seq::empty()
    } else if picks(which, items[n - 1]) {
        selected(items, which, n - 1).push(n - 1)
    } else {
        selected(items, which, n - 1)
    }
}

/// Whether the item is marked as exported.
pub fn is_exported(item: &Item) -> (r: bool)
    ensures
        r == exported(*item),
{
    let mut j: usize = 0;
    while j < item.attrs.len()
        invariant
            j <= item.attrs@.len(),
            forall|k: int| 0 <= k < j ==> !is_marker()(item.attrs@[k]),
        decreases item.attrs@.len() - j,
    {
        if same_text(item.attrs[j].as_str(), "#[cfg(not(generated_extern_impl))]") {
            proof {
                lemma_first_where_found(item.attrs@, is_marker(), j as int);
            }
            return true;
        }
        j += 1;
    }
    proof {
        lemma_first_where_absent(item.attrs@, is_marker());
    }
    false
}

/// Whether the item is an implementation block that is exported.
pub fn is_relevant_impl(item: &Item) -> (r: bool)
    ensures
        r == relevant_impl(*item),
{
    if !is_exported(item) {
        return false;
    }
    match &item.kind {
        ItemKind::Impl { .. } => true,
        _ => false,
    }
}

/// Whether the item is a function outside of any block that is exported.
pub fn is_free_standing_impl(item: &Item) -> (r: bool)
    ensures
        r == free_standing(*item),
{
    if !is_exported(item) {
        return false;
    }
    match &item.kind {
        ItemKind::Function(_) => true,
        _ => false,
    }
}

/// Whether the item is an entry point of the boundary.
pub fn is_entry_point(item: &Item) -> (r: bool)
    ensures
        r == entry_point(*item),
{
    match &item.kind {
        ItemKind::Function(sig) => sig.is_extern_c,
        _ => false,
    }
}

/// The indices of the items of `items` that `which` picks, in order.
pub fn select_items(items: &Vec<Item>, which: Selection) -> (r: Vec<usize>)
    ensures
        indices(r@) == selected(items@, which, items@.len() as int),
        forall|i: int| 0 <= i < r@.len() ==> r@[i] < items@.len(),
{
    let mut out: Vec<usize> = Vec::new();
    let mut n: usize = 0;
    assert(indices(out@) =~= Seq::empty());
    while n < items.len()
        invariant
            n <= items@.len(),
            indices(out@) == selected(items@, which, n as int),
            forall|i: int| 0 <= i < out@.len() ==> out@[i] < items@.len(),
        decreases items@.len() - n,
    {
        let picked = match which {
            Selection::RelevantImpls => is_relevant_impl(&items[n]),
            Selection::FreeStanding => is_free_standing_impl(&items[n]),
            Selection::EntryPoints => is_entry_point(&items[n]),
        };
        if picked {
            let ghost before = indices(out@);
            out.push(n);
            assert(indices(out@) =~= before.push(n as int));
        }
        n += 1;
    }
    out
}

/// The methods of one type: the implementation block that names the type
/// first, and the exported functions of all blocks for that type.
#[derive(Debug, Clone, PartialEq, Eq)]
pub struct Group {
    /// The index, in the primary document, of the block that names the type.
    pub impl_index: usize,
    pub members: Vec<Place>,
}

pub struct GroupView {
    pub impl_index: int,
    pub members: Seq<(int, int)>,
}

impl View for Group {
    type V = GroupView;

    open spec fn view(&self) -> GroupView {
        GroupView { impl_index: self.impl_index as int, members: place_pairs(self.members@) }
    }
}

/// The views of the groups of `v`, in order.
pub open spec fn group_views(v: Seq<Group>) -> Seq<GroupView> {
    Seq::new(v.len(), |i: int| v[i]@)
}

/// The type that the block at index `k` of the primary document is for.
pub open spec fn impl_type(r: Resolver, k: int) -> TypeView {
    match r.documents@[0].items@[k].kind {
        ItemKind::Impl { for_type, items } => for_type@,
        _ => TypeView::Unsupported,
    }
}

/// The identifiers of the members of the block at index `k`.
pub open spec fn impl_members(r: Resolver, k: int) -> Seq<u32> {
    match r.documents@[0].items@[k].kind {
        ItemKind::Impl { for_type, items } => items@,
        _ => Seq::empty(),
    }
}

/// The places of the functions among the first `n` identifiers of `ids`.
pub open spec fn function_members(r: Resolver, origin: Seq<char>, ids: Seq<u32>, n: int) -> Result<
    Seq<(int, int)>,
    BuildErrorView,
>
    decreases n,
{
    if n <= 0 || n > ids.len() {
        Ok(Seq::empty())
    } else {
        match function_members(r, origin, ids, n - 1) {
            Err(e) => Err(e),
            Ok(acc) => match resolved_place(r.documents@, ids[n - 1], origin) {
                Err(e) => Err(e),
                Ok(p) => if r.item_at(p).kind is Function {
                    Ok(acc.push(p))
                } else {
                    Ok(acc)
                },
            },
        }
    }
}

/// The groups for the type `ty`.
pub open spec fn is_for(r: Resolver, ty: TypeView) -> spec_fn(GroupView) -> bool {
    |g: GroupView| impl_type(r, g.impl_index) == ty
}

/// The groups with the members of the block at `k` added: to the group of
/// the block's type where there is one, else as a new group.
pub open spec fn merged(r: Resolver, groups: Seq<GroupView>, k: int, members: Seq<(int, int)>) -> Seq<
    GroupView,
> {
    match first_where(groups, is_for(r, impl_type(r, k))) {
        Some(g) => groups.update(
            g,
            GroupView { impl_index: groups[g].impl_index, members: groups[g].members + members },
        ),
        None => groups.push(GroupView { impl_index: k, members }),
    }
}

/// The groups that the first `n` blocks of `impls` make.
pub open spec fn grouped(r: Resolver, origin: Seq<char>, impls: Seq<int>, n: int) -> Result<
    Seq<GroupView>,
    BuildErrorView,
>
    decreases n,
{
    if n <= 0 || n > impls.len() {
        Ok(Seq::empty())
    } else {
        match grouped(r, origin, impls, n - 1) {
            Err(e) => Err(e),
            Ok(groups) => {
                let ids = impl_members(r, impls[n - 1]);
                match function_members(r, origin, ids, ids.len() as int) {
                    Err(e) => Err(e),
                    Ok(members) => Ok(merged(r, groups, impls[n - 1], members)),
                }
            },
        }
    }
}

/// The names of the items at `places`.
pub open spec fn member_names(r: Resolver, places: Seq<(int, int)>) -> Seq<Seq<char>> {
    Seq::new(places.len(), |i: int| item_name(r.item_at(places[i])))
}

/// The items of `items` along `order`.
pub open spec fn arranged<T>(items: Seq<T>, order: Seq<int>) -> Seq<T> {
    Seq::new(order.len(), |i: int| items[order[i]])
}

/// The places of `places`, ordered by the names of their items.
pub open spec fn by_name(r: Resolver, places: Seq<(int, int)>) -> Seq<(int, int)> {
    arranged(places, ordered(member_names(r, places), places.len() as int))
}

/// The name of the type of a group: the name of the path that its block is
/// for, without the path. A block for anything but a path has none.
pub open spec fn group_name(r: Resolver, g: GroupView) -> Option<Seq<char>> {
    match impl_type(r, g.impl_index) {
        TypeView::NamedPath { name, id, args } => Some(last_segment(name)),
        _ => None,
    }
}

/// The names of the first `n` groups; `None` where one of them has none.
pub open spec fn group_names(r: Resolver, groups: Seq<GroupView>, n: int) -> Option<
    Seq<Seq<char>>,
>
    decreases n,
{
    if n <= 0 || n > groups.len() {
        Some(Seq::empty())
    } else {
        match (group_names(r, groups, n - 1), group_name(r, groups[n - 1])) {
            (Some(names), Some(name)) => Some(names.push(name)),
            _ => None,
        }
    }
}

/// The groups of `groups`, each with its members ordered by name.
pub open spec fn with_ordered_members(r: Resolver, groups: Seq<GroupView>) -> Seq<GroupView> {
    Seq::new(
        groups.len(),
        |i: int|
            GroupView {
                impl_index: groups[i].impl_index,
                members: by_name(r, groups[i].members),
            },
    )
}

/// The groups of exported methods of the primary document, ordered by the
/// name of their type, each with its members ordered by name.
pub open spec fn exported_groups(r: Resolver, origin: Seq<char>) -> Result<
    Seq<GroupView>,
    BuildErrorView,
> {
    let items = r.documents@[0].items@;
    let impls = selected(items, Selection::RelevantImpls, items.len() as int);
    match grouped(r, origin, impls, impls.len() as int) {
        Err(e) => Err(e),
        Ok(groups) => match group_names(r, groups, groups.len() as int) {
            None => Err(BuildErrorView::UnsupportedShape),
            Some(names) => Ok(
                arranged(with_ordered_members(r, groups), ordered(names, names.len() as int)),
            ),
        },
    }
}

/// The exported functions outside of any block, ordered by name.
pub open spec fn exported_functions(r: Resolver) -> Seq<(int, int)> {
    let items = r.documents@[0].items@;
    let picked = selected(items, Selection::FreeStanding, items.len() as int);
    by_name(r, Seq::new(picked.len(), |i: int| (0int, picked[i])))
}

/// The places of the items at the indices `picked` of the primary document.
pub fn primary_places(picked: &Vec<usize>) -> (r: Vec<Place>)
    ensures
        place_pairs(r@) == Seq::new(picked@.len(), |i: int| (0int, indices(picked@)[i])),
        r@.len() == picked@.len(),
        forall|j: int|
            0 <= j < r@.len() ==> (#[trigger] r@[j]).document == 0 && r@[j].item == picked@[j],
{
    let mut out: Vec<Place> = Vec::new();
    let mut i: usize = 0;
    while i < picked.len()
        invariant
            i <= picked@.len(),
            out@.len() == i,
            forall|j: int|
                0 <= j < i ==> (#[trigger] out@[j]).document == 0 && out@[j].item == picked@[j],
        decreases picked@.len() - i,
    {
        let ghost before = out@;
        let place = Place { document: 0, item: picked[i] };
        out.push(place);
        assert forall|j: int| 0 <= j < i + 1 implies (#[trigger] out@[j]).document == 0
            && out@[j].item == picked@[j] by {
            if j < i {
                assert(out@[j] == before[j]);
            }
        }
        i += 1;
    }
    assert(place_pairs(out@) =~= Seq::new(
        picked@.len(),
        |i: int| (0int, indices(picked@)[i]),
    ));
    out
}

/// Whether every place of `places` is an item of the documents of `r`.
pub open spec fn valid_places(r: Resolver, places: Seq<Place>) -> bool {
    forall|i: int|
        0 <= i < places.len() ==> (#[trigger] places[i]).document < r.documents@.len()
            && places[i].item < r.documents@[places[i].document as int].items@.len()
}

/// The places of `places`, ordered by the names of their items.
pub fn order_by_name(resolver: &Resolver, places: &Vec<Place>) -> (r: Vec<Place>)
    requires
        valid_places(*resolver, places@),
    ensures
        place_pairs(r@) == by_name(*resolver, place_pairs(places@)),
        valid_places(*resolver, r@),
        r@.len() == places@.len(),
{
    let mut names: Vec<String> = Vec::new();
    let mut i: usize = 0;
    let ghost want = member_names(*resolver, place_pairs(places@));
    assert(views(names@) =~= want.take(0));
    while i < places.len()
        invariant
            i <= places@.len(),
            valid_places(*resolver, places@),
            want == member_names(*resolver, place_pairs(places@)),
            views(names@) == want.take(i as int),
        decreases places@.len() - i,
    {
        let item = resolver.item(places[i]);
        let name = match &item.name {
            Some(n) => n.clone(),
            None => String::new(),
        };
        push_text(&mut names, name);
        i += 1;
        assert(views(names@) =~= want.take(i as int));
    }
    assert(want.take(i as int) =~= want);
    let order = sort_order(&names);
    let mut out: Vec<Place> = Vec::new();
    let mut k: usize = 0;
    while k < order.len()
        invariant
            k <= order@.len(),
            out@.len() == k,
            valid_places(*resolver, places@),
            within(indices(order@), places@.len() as int),
            forall|j: int| 0 <= j < k ==> out@[j] == places@[order@[j] as int],
        decreases order@.len() - k,
    {
        assert(0 <= indices(order@)[k as int] < places@.len());
        out.push(places[order[k]]);
        k += 1;
    }
    assert(place_pairs(out@) =~= by_name(*resolver, place_pairs(places@)));
    assert forall|i: int| 0 <= i < out@.len() implies (#[trigger] out@[i]).document
        < resolver.documents@.len() && out@[i].item
        < resolver.documents@[out@[i].document as int].items@.len() by {
        assert(0 <= indices(order@)[i] < places@.len());
        assert(out@[i] == places@[order@[i] as int]);
    }
    out
}

/// The places of the functions among the members `ids` of a block.
pub fn collect_functions(resolver: &Resolver, origin: &str, ids: &Vec<u32>) -> (r: Result<
    Vec<Place>,
    BuildError,
>)
    ensures
        match r {
            Ok(v) => function_members(*resolver, origin@, ids@, ids@.len() as int) == Ok::<
                Seq<(int, int)>,
                BuildErrorView,
            >(place_pairs(v@)) && valid_places(*resolver, v@),
            Err(e) => function_members(*resolver, origin@, ids@, ids@.len() as int) == Err::<
                Seq<(int, int)>,
                BuildErrorView,
            >(e@),
        },
{
    let mut out: Vec<Place> = Vec::new();
    let mut n: usize = 0;
    assert(place_pairs(out@) =~= Seq::empty());
    while n < ids.len()
        invariant
            n <= ids@.len(),
            valid_places(*resolver, out@),
            function_members(*resolver, origin@, ids@, n as int) == Ok::<
                Seq<(int, int)>,
                BuildErrorView,
            >(place_pairs(out@)),
        decreases ids@.len() - n,
    {
        match resolver.resolve_by_id(ids[n], origin) {
            Err(e) => {
                proof {
                    lemma_members_fail(*resolver, origin@, ids@, n + 1, ids@.len() as int);
                }
                return Err(e);
            },
            Ok(p) => {
                let is_function = match &resolver.item(p).kind {
                    ItemKind::Function(_) => true,
                    _ => false,
                };
                if is_function {
                    let ghost before = place_pairs(out@);
                    out.push(p);
                    assert(place_pairs(out@) =~= before.push((p.document as int, p.item as int)));
                }
            },
        }
        n += 1;
    }
    Ok(out)
}

/// A failure among the first `n` identifiers is the failure of any longer
/// run.
pub proof fn lemma_members_fail(r: Resolver, origin: Seq<char>, ids: Seq<u32>, n: int, m: int)
    requires
        0 <= n <= m <= ids.len(),
        function_members(r, origin, ids, n) is Err,
    ensures
        function_members(r, origin, ids, m) == function_members(r, origin, ids, n),
    decreases m - n,
{
    if n < m {
        lemma_members_fail(r, origin, ids, n, m - 1);
    }
}

/// A failure among the first `n` blocks is the failure of any longer run.
pub proof fn lemma_groups_fail(r: Resolver, origin: Seq<char>, impls: Seq<int>, n: int, m: int)
    requires
        0 <= n <= m <= impls.len(),
        grouped(r, origin, impls, n) is Err,
    ensures
        grouped(r, origin, impls, m) == grouped(r, origin, impls, n),
    decreases m - n,
{
    if n < m {
        lemma_groups_fail(r, origin, impls, n, m - 1);
    }
}

/// Where the first `n` groups have no names, no longer run has.
pub proof fn lemma_names_fail(r: Resolver, groups: Seq<GroupView>, n: int, m: int)
    requires
        0 <= n <= m <= groups.len(),
        group_names(r, groups, n) is None,
    ensures
        group_names(r, groups, m) is None,
    decreases m - n,
{
    if n < m {
        lemma_names_fail(r, groups, n, m - 1);
    }
}

/// Whether every group names a block of the primary document and holds
/// places of the documents of `r`.
pub open spec fn valid_groups(r: Resolver, groups: Seq<Group>) -> bool {
    forall|i: int|
        0 <= i < groups.len() ==> (#[trigger] groups[i]).impl_index < r.documents@[0].items@.len()
            && valid_places(r, groups[i].members@)
}

/// The index of the group for the type `ty`.
fn find_group(resolver: &Resolver, groups: &Vec<Group>, ty: &TypeExpression) -> (r: Option<usize>)
    requires
        resolver.wf(),
        valid_groups(*resolver, groups@),
    ensures
        match r {
            Some(g) => first_where(group_views(groups@), is_for(*resolver, ty@)) == Some(
                g as int,
            ) && g < groups@.len(),
            None => first_where(group_views(groups@), is_for(*resolver, ty@)) is None,
        },
{
    let mut g: usize = 0;
    let ghost all = group_views(groups@);
    while g < groups.len()
        invariant
            g <= groups@.len(),
            resolver.wf(),
            valid_groups(*resolver, groups@),
            all == group_views(groups@),
            forall|k: int| 0 <= k < g ==> !is_for(*resolver, ty@)(all[k]),
        decreases groups@.len() - g,
    {
        let k = groups[g].impl_index;
        assert(all[g as int] == groups@[g as int]@);
        let same = match &resolver.documents[0].items[k].kind {
            ItemKind::Impl { for_type, .. } => for_type.same_as(ty),
            _ => match ty {
                TypeExpression::Unsupported => true,
                _ => false,
            },
        };
        if same {
            proof {
                lemma_first_where_found(all, is_for(*resolver, ty@), g as int);
            }
            return Some(g);
        }
        g += 1;
    }
    proof {
        lemma_first_where_absent(all, is_for(*resolver, ty@));
    }
    None
}

/// The groups of exported methods of the primary document, ordered by the
/// name of their type, each with its members ordered by name.
pub fn collect_groups(resolver: &Resolver, origin: &str) -> (r: Result<Vec<Group>, BuildError>)
    requires
        resolver.wf(),
    ensures
        match r {
            Ok(v) => exported_groups(*resolver, origin@) == Ok::<Seq<GroupView>, BuildErrorView>(
                group_views(v@),
            ) && valid_groups(*resolver, v@),
            Err(e) => exported_groups(*resolver, origin@) == Err::<
                Seq<GroupView>,
                BuildErrorView,
            >(e@),
        },
{
    let items = &resolver.documents[0].items;
    let impls = select_items(items, Selection::RelevantImpls);
    let ghost picked = indices(impls@);
    let mut groups: Vec<Group> = Vec::new();
    let mut n: usize = 0;
    assert(group_views(groups@) =~= Seq::empty());
    while n < impls.len()
        invariant
            n <= impls@.len(),
            resolver.wf(),
            picked == indices(impls@),
            picked == selected(
                resolver.documents@[0].items@,
                Selection::RelevantImpls,
                resolver.documents@[0].items@.len() as int,
            ),
            forall|i: int| 0 <= i < impls@.len() ==> impls@[i] < resolver.documents@[0].items@.len(),
            valid_groups(*resolver, groups@),
            grouped(*resolver, origin@, picked, n as int) == Ok::<Seq<GroupView>, BuildErrorView>(
                group_views(groups@),
            ),
        decreases impls@.len() - n,
    {
        let k = impls[n];
        assert(picked[n as int] == k as int);
        let none: Vec<u32> = Vec::new();
        let unsupported = TypeExpression::Unsupported;
        let (ty, ids): (&TypeExpression, &Vec<u32>) = match &resolver.documents[0].items[k].kind {
            ItemKind::Impl { for_type, items } => (for_type, items),
            _ => (&unsupported, &none),
        };
        assert(ty@ == impl_type(*resolver, k as int));
        assert(ids@ =~= impl_members(*resolver, k as int));
        let members = match collect_functions(resolver, origin, ids) {
            Err(e) => {
                proof {
                    assert(grouped(*resolver, origin@, picked, n + 1) == Err::<
                        Seq<GroupView>,
                        BuildErrorView,
                    >(e@));
                    lemma_groups_fail(*resolver, origin@, picked, n + 1, picked.len() as int);
                }
                return Err(e);
            },
            Ok(m) => m,
        };
        let ghost before = group_views(groups@);
        match find_group(resolver, &groups, ty) {
            Some(g) => {
                let ghost earlier = groups@;
                let previous = groups.remove(g);
                let mut all = previous.members;
                let mut more = members;
                let ghost a = all@;
                let ghost b = more@;
                all.append(&mut more);
                assert(place_pairs(a + b) =~= place_pairs(a) + place_pairs(b));
                let merged_group = Group { impl_index: previous.impl_index, members: all };
                groups.insert(g, merged_group);
                assert(group_views(groups@) =~= before.update(g as int, merged_group@));
                assert forall|i: int| 0 <= i < groups@.len() implies (#[trigger] groups@[i]).impl_index
                    < resolver.documents@[0].items@.len() && valid_places(
                    *resolver,
                    groups@[i].members@,
                ) by {
                    if i != g {
                        assert(groups@[i] == earlier[i]);
                    }
                }
            },
            None => {
                let fresh = Group { impl_index: k, members };
                groups.push(fresh);
                assert(group_views(groups@) =~= before.push(fresh@));
            },
        }
        n += 1;
    }
    let mut names: Vec<String> = Vec::new();
    let mut sorted: Vec<Group> = Vec::new();
    let mut i: usize = 0;
    let ghost all = group_views(groups@);
    assert(views(names@) =~= Seq::empty());
    assert(group_views(sorted@) =~= with_ordered_members(*resolver, all).take(0));
    while i < groups.len()
        invariant
            i <= groups@.len(),
            resolver.wf(),
            valid_groups(*resolver, groups@),
            valid_groups(*resolver, sorted@),
            all == group_views(groups@),
            picked == selected(
                resolver.documents@[0].items@,
                Selection::RelevantImpls,
                resolver.documents@[0].items@.len() as int,
            ),
            grouped(*resolver, origin@, picked, picked.len() as int) == Ok::<
                Seq<GroupView>,
                BuildErrorView,
            >(all),
            group_names(*resolver, all, i as int) == Some(views(names@)),
            names@.len() == i,
            group_views(sorted@) == with_ordered_members(*resolver, all).take(i as int),
        decreases groups@.len() - i,
    {
        let k = groups[i].impl_index;
        assert(all[i as int] == groups@[i as int]@);
        let name = match &resolver.documents[0].items[k].kind {
            ItemKind::Impl { for_type, .. } => match for_type {
                TypeExpression::NamedPath { name, .. } => Some(name_without_path(name.as_str())),
                _ => None,
            },
            _ => None,
        };
        match name {
            None => {
                proof {
                    assert(group_name(*resolver, all[i as int]) is None);
                    assert(group_names(*resolver, all, i + 1) is None);
                    lemma_names_fail(*resolver, all, i + 1, all.len() as int);
                }
                return Err(BuildError::UnsupportedShape);
            },
            Some(n) => {
                push_text(&mut names, n);
            },
        }
        let members = order_by_name(resolver, &groups[i].members);
        let arranged_group = Group { impl_index: k, members };
        let ghost before = group_views(sorted@);
        sorted.push(arranged_group);
        assert(group_views(sorted@) =~= before.push(arranged_group@));
        i += 1;
        assert(group_views(sorted@) =~= with_ordered_members(*resolver, all).take(i as int));
    }
    assert(with_ordered_members(*resolver, all).take(i as int) =~= with_ordered_members(
        *resolver,
        all,
    ));
    let order = sort_order(&names);
    let mut out: Vec<Group> = Vec::new();
    let mut j: usize = 0;
    while j < order.len()
        invariant
            j <= order@.len(),
            out@.len() == j,
            valid_groups(*resolver, sorted@),
            valid_groups(*resolver, out@),
            within(indices(order@), sorted@.len() as int),
            forall|m: int| 0 <= m < j ==> out@[m]@ == sorted@[order@[m] as int]@,
        decreases order@.len() - j,
    {
        assert(0 <= indices(order@)[j as int] < sorted@.len());
        let source = &sorted[order[j]];
        let mut members: Vec<Place> = Vec::new();
        let mut m: usize = 0;
        while m < source.members.len()
            invariant
                m <= source.members@.len(),
                members@ == source.members@.take(m as int),
            decreases source.members@.len() - m,
        {
            members.push(source.members[m]);
            m += 1;
            assert(members@ =~= source.members@.take(m as int));
        }
        assert(source.members@.take(m as int) =~= source.members@);
        out.push(Group { impl_index: source.impl_index, members });
        j += 1;
    }
    assert(group_views(out@) =~= arranged(
        with_ordered_members(*resolver, all),
        ordered(views(names@), names@.len() as int),
    ));
    Ok(out)
}

/// The exported functions outside of any block, ordered by name.
pub fn collect_free_functions(resolver: &Resolver) -> (r: Vec<Place>)
    requires
        resolver.wf(),
    ensures
        place_pairs(r@) == exported_functions(*resolver),
        valid_places(*resolver, r@),
{
    let picked = select_items(&resolver.documents[0].items, Selection::FreeStanding);
    let places = primary_places(&picked);
    assert(valid_places(*resolver, places@)) by {
        assert forall|i: int| 0 <= i < places@.len() implies (#[trigger] places@[i]).document
            < resolver.documents@.len() && places@[i].item
            < resolver.documents@[places@[i].document as int].items@.len() by {
            assert(places@[i].item == picked@[i]);
            assert(picked@[i] < resolver.documents@[0].items@.len());
        }
    }
    assert(indices(picked@).len() == picked@.len());
    order_by_name(resolver, &places)
}

} // verus!
