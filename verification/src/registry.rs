//! The registry of named formats: at most one definition for each name.

use crate::format::{
    seq_view, ContainerFormat, ContainerView, Format, FormatView, Lowered, LoweredView,
};
use crate::text::same_text;
use vstd::prelude::*;

verus! {

/// The definition of one named container.
#[derive(Debug, PartialEq, Eq)]
pub struct RegistryEntry {
    pub name: String,
    pub container: ContainerFormat,
}

/// The named containers that a pass has found. No two entries have the same
/// name.
pub struct Registry {
    pub entries: Vec<RegistryEntry>,
}

/// The map that a list of entries stands for: a later entry replaces an
/// earlier one of the same name.
pub open spec fn entries_map(entries: Seq<RegistryEntry>) -> Map<Seq<char>, ContainerView>
    decreases entries.len(),
{
    if entries.len() == 0 {
        Map::empty()
    } else {
        entries_map(entries.drop_last()).insert(entries.last().name@, entries.last().container@)
    }
}

/// Whether no two entries have the same name.
pub open spec fn distinct_names(entries: Seq<RegistryEntry>) -> bool {
    forall|i: int, j: int|
        0 <= i < j < entries.len() ==> (#[trigger] entries[i]).name@ != (
        #[trigger] entries[j]).name@
}

impl View for Registry {
    type V = Map<Seq<char>, ContainerView>;

    open spec fn view(&self) -> Map<Seq<char>, ContainerView> {
        entries_map(self.entries@)
    }
}

/// The registry `reg` after the definitions of `seq` up to index `n` have
/// been written into it in order: each element that carries a container under
/// a name defines that name, and a later definition replaces an earlier one.
pub open spec fn registered(
    reg: Map<Seq<char>, ContainerView>,
    seq: Seq<LoweredView>,
    n: int,
) -> Map<Seq<char>, ContainerView>
    decreases n,
{
    if n <= 0 || n > seq.len() {
        reg
    } else {
        let before = registered(reg, seq, n - 1);
        match (seq[n - 1].format, seq[n - 1].container) {
            (FormatView::NamedType(name), Some(container)) => before.insert(name, container),
            _ => before,
        }
    }
}

/// The definition that `seq` gives last for `name` among its first `n`
/// elements.
pub open spec fn last_definition(seq: Seq<LoweredView>, name: Seq<char>, n: int) -> Option<
    ContainerView,
>
    decreases n,
{
    if n <= 0 || n > seq.len() {
        None
    } else {
        match (seq[n - 1].format, seq[n - 1].container) {
            (FormatView::NamedType(m), Some(container)) => if m == name {
                Some(container)
            } else {
                last_definition(seq, name, n - 1)
            },
            _ => last_definition(seq, name, n - 1),
        }
    }
}

/// What a name maps to after registering: the last definition that the
/// sequence gives for it, or what the registry held before.
pub proof fn lemma_registered_lookup(
    reg: Map<Seq<char>, ContainerView>,
    seq: Seq<LoweredView>,
    n: int,
    name: Seq<char>,
)
    requires
        0 <= n <= seq.len(),
    ensures
        registered(reg, seq, n).contains_key(name) <==> (reg.contains_key(name)
            || last_definition(seq, name, n) is Some),
        registered(reg, seq, n).contains_key(name) ==> registered(reg, seq, n)[name]
            == match last_definition(seq, name, n) {
            Some(c) => c,
            None => reg[name],
        },
    decreases n,
{
    if n > 0 {
        lemma_registered_lookup(reg, seq, n - 1, name);
    }
}

/// Registering the same sequence a second time changes nothing: each name
/// keeps its one definition.
pub proof fn lemma_registering_twice_changes_nothing(
    reg: Map<Seq<char>, ContainerView>,
    seq: Seq<LoweredView>,
)
    ensures
        registered(registered(reg, seq, seq.len() as int), seq, seq.len() as int) == registered(
            reg,
            seq,
            seq.len() as int,
        ),
{
    let n = seq.len() as int;
    let once = registered(reg, seq, n);
    let twice = registered(once, seq, n);
    assert forall|name: Seq<char>| once.contains_key(name) == twice.contains_key(name) by {
        lemma_registered_lookup(reg, seq, n, name);
        lemma_registered_lookup(once, seq, n, name);
    }
    assert forall|name: Seq<char>| once.contains_key(name) implies once[name] == twice[name] by {
        lemma_registered_lookup(reg, seq, n, name);
        lemma_registered_lookup(once, seq, n, name);
    }
    assert(once =~= twice);
}

/// Registering the start of a sequence does not look at what follows it.
pub proof fn lemma_registered_start(
    reg: Map<Seq<char>, ContainerView>,
    a: Seq<LoweredView>,
    b: Seq<LoweredView>,
    m: int,
)
    requires
        0 <= m <= a.len(),
    ensures
        registered(reg, a + b, m) == registered(reg, a, m),
    decreases m,
{
    if m > 0 {
        lemma_registered_start(reg, a, b, m - 1);
        assert((a + b)[m - 1] == a[m - 1]);
    }
}

/// Registering two sequences as one is registering them in turn.
pub proof fn lemma_registered_in_turn(
    reg: Map<Seq<char>, ContainerView>,
    a: Seq<LoweredView>,
    b: Seq<LoweredView>,
    n: int,
)
    requires
        0 <= n <= b.len(),
    ensures
        registered(reg, a + b, a.len() + n) == registered(
            registered(reg, a, a.len() as int),
            b,
            n,
        ),
    decreases n,
{
    if n > 0 {
        lemma_registered_in_turn(reg, a, b, n - 1);
        assert((a + b)[a.len() + n - 1] == b[n - 1]);
    } else {
        lemma_registered_start(reg, a, b, a.len() as int);
    }
}

/// An entry decides its name where no later entry has it.
pub proof fn lemma_entry_decides(entries: Seq<RegistryEntry>, name: Seq<char>, i: int)
    requires
        0 <= i < entries.len(),
        entries[i].name@ == name,
        forall|j: int| i < j < entries.len() ==> entries[j].name@ != name,
    ensures
        entries_map(entries).contains_key(name),
        entries_map(entries)[name] == entries[i].container@,
    decreases entries.len(),
{
    if i < entries.len() - 1 {
        lemma_entry_decides(entries.drop_last(), name, i);
    }
}

/// A name that no entry has is not in the map.
pub proof fn lemma_no_entry(entries: Seq<RegistryEntry>, name: Seq<char>)
    requires
        forall|j: int| 0 <= j < entries.len() ==> entries[j].name@ != name,
    ensures
        !entries_map(entries).contains_key(name),
    decreases entries.len(),
{
    if entries.len() > 0 {
        lemma_no_entry(entries.drop_last(), name);
    }
}

/// Replacing the container of the entry at `i` replaces what its name maps
/// to, where no other entry has that name.
pub proof fn lemma_replace_entry(
    entries: Seq<RegistryEntry>,
    i: int,
    entry: RegistryEntry,
)
    requires
        0 <= i < entries.len(),
        distinct_names(entries),
        entry.name@ == entries[i].name@,
    ensures
        entries_map(entries.update(i, entry)) == entries_map(entries).insert(
            entry.name@,
            entry.container@,
        ),
        distinct_names(entries.update(i, entry)),
    decreases entries.len(),
{
    let updated = entries.update(i, entry);
    if i == entries.len() - 1 {
        assert(updated.drop_last() =~= entries.drop_last());
        assert(entries_map(updated) =~= entries_map(entries).insert(
            entry.name@,
            entry.container@,
        ));
    } else {
        let head = entries.drop_last();
        assert(distinct_names(head)) by {
            assert forall|a: int, b: int| 0 <= a < b < head.len() implies (#[trigger] head[a]).name@
                != (#[trigger] head[b]).name@ by {
                assert(head[a] == entries[a] && head[b] == entries[b]);
            }
        }
        lemma_replace_entry(head, i, entry);
        assert(updated.drop_last() =~= head.update(i, entry));
        assert(updated.last() == entries.last());
        assert(entries[i].name@ != entries.last().name@);
        assert(entries_map(updated) =~= entries_map(entries).insert(
            entry.name@,
            entry.container@,
        ));
    }
    assert forall|a: int, b: int| 0 <= a < b < updated.len() implies (#[trigger] updated[a]).name@
        != (#[trigger] updated[b]).name@ by {
        assert(updated[a].name@ == entries[a].name@);
        assert(updated[b].name@ == entries[b].name@);
    }
}

impl Registry {
    /// Whether the registry holds at most one definition for each name.
    pub open spec fn wf(&self) -> bool {
        distinct_names(self.entries@)
    }

    /// An empty registry.
    pub fn new() -> (r: Registry)
        ensures
            r.wf(),
            r@ == Map::<Seq<char>, ContainerView>::empty(),
    {
        Registry { entries: Vec::new() }
    }

    /// The index of the entry named `name`.
    pub fn find(&self, name: &str) -> (r: Option<usize>)
        ensures
            match r {
                Some(i) => i < self.entries@.len() && self.entries@[i as int].name@ == name@,
                None => forall|j: int|
                    0 <= j < self.entries@.len() ==> self.entries@[j].name@ != name@,
            },
    {
        let mut i: usize = 0;
        while i < self.entries.len()
            invariant
                i <= self.entries@.len(),
                forall|j: int| 0 <= j < i ==> self.entries@[j].name@ != name@,
            decreases self.entries@.len() - i,
        {
            if same_text(self.entries[i].name.as_str(), name) {
                return Some(i);
            }
            i += 1;
        }
        None
    }

    /// The definition of `name`.
    pub fn get(&self, name: &str) -> (r: Option<&ContainerFormat>)
        requires
            self.wf(),
        ensures
            match r {
                Some(c) => self@.contains_key(name@) && self@[name@] == c@,
                None => !self@.contains_key(name@),
            },
    {
        match self.find(name) {
            Some(i) => {
                proof {
                    lemma_entry_decides(self.entries@, name@, i as int);
                }
                Some(&self.entries[i].container)
            },
            None => {
                proof {
                    lemma_no_entry(self.entries@, name@);
                }
                None
            },
        }
    }

    /// Defines `name` as `container`. A definition that the registry holds
    /// for the name is replaced.
    pub fn insert(&mut self, name: String, container: ContainerFormat)
        requires
            old(self).wf(),
        ensures
            final(self).wf(),
            final(self)@ == old(self)@.insert(name@, container@),
    {
        match self.find(name.as_str()) {
            Some(i) => {
                let entry = RegistryEntry { name, container };
                proof {
                    lemma_replace_entry(self.entries@, i as int, entry);
                }
                self.entries.set(i, entry);
            },
            None => {
                let entry = RegistryEntry { name, container };
                self.entries.push(entry);
                assert(self.entries@.drop_last() =~= old(self).entries@);
            },
        }
    }

    /// Writes the definitions of `seq` into the registry, in order.
    pub fn register(&mut self, seq: Vec<Lowered>)
        requires
            old(self).wf(),
        ensures
            final(self).wf(),
            final(self)@ == registered(old(self)@, seq_view(seq@), seq@.len() as int),
    {
        let mut seq = seq;
        let ghost all = seq_view(seq@);
        let ghost total = seq@.len();
        let mut rest: Vec<Lowered> = Vec::new();
        // Take the elements from the back, so that each can be moved out.
        let count = seq.len();
        assert(count == total);
        while seq.len() > 0
            invariant
                seq@.len() + rest@.len() == total,
                total <= usize::MAX,
                all.len() == total,
                forall|j: int| 0 <= j < seq@.len() ==> seq@[j]@ == all[j],
                forall|j: int|
                    0 <= j < rest@.len() ==> rest@[j]@ == all[total - 1 - j],
            decreases seq@.len(),
        {
            match seq.pop() {
                Some(x) => {
                    rest.push(x);
                },
                None => {},
            }
        }
        let mut n: usize = 0;
        while rest.len() > 0
            invariant
                self.wf(),
                n + rest@.len() == total,
                total <= usize::MAX,
                all.len() == total,
                forall|j: int|
                    0 <= j < rest@.len() ==> rest@[j]@ == all[total - 1 - j],
                self@ == registered(old(self)@, all, n as int),
            decreases rest@.len(),
        {
            match rest.pop() {
                Some(x) => {
                    assert(x@ == all[n as int]);
                    match (x.format, x.container) {
                        (Format::NamedType(name), Some(container)) => {
                            self.insert(name, container);
                        },
                        _ => {},
                    }
                    n += 1;
                },
                None => {},
            }
        }
    }
}

} // verus!
