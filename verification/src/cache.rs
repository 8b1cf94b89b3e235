//! The memo of one lowering pass.
//!
//! The memo maps a type expression, together with the generic arguments that
//! surround it, to the state of its lowering: pending while it is being
//! lowered, cached once its lowering is complete.

use crate::format::{duplicate_lowered, seq_view, Lowered, LoweredView};
use crate::types::{duplicate_types, models, same_types, TypeExpression, TypeView};
use vstd::prelude::*;

verus! {

/// What the memo is keyed by.
pub struct CacheKey {
    pub expr: TypeView,
    pub ambient: Seq<TypeView>,
}

/// The state of the lowering of one key.
pub enum CacheState {
    Pending,
    Cached(Vec<Lowered>),
}

/// The mathematical model of a `CacheState`.
pub enum CacheStateView {
    Pending,
    Cached(Seq<LoweredView>),
}

impl View for CacheState {
    type V = CacheStateView;

    open spec fn view(&self) -> CacheStateView {
        match self {
            CacheState::Pending => CacheStateView::Pending,
            CacheState::Cached(v) => CacheStateView::Cached(seq_view(v@)),
        }
    }
}

/// One entry of the memo.
pub struct CacheEntry {
    pub expr: TypeExpression,
    pub ambient: Vec<TypeExpression>,
    pub state: CacheState,
}

impl CacheEntry {
    /// The key of this entry.
    pub open spec fn key(self) -> CacheKey {
        CacheKey { expr: self.expr@, ambient: models(self.ambient@) }
    }
}

/// The map that a list of entries stands for: a later entry replaces an
/// earlier one of the same key.
pub open spec fn entries_map(entries: Seq<CacheEntry>) -> Map<CacheKey, CacheStateView>
    decreases entries.len(),
{
    if entries.len() == 0 {
        Map::empty()
    } else {
        entries_map(entries.drop_last()).insert(entries.last().key(), entries.last().state@)
    }
}

/// The memo of one pass.
pub struct TypeCache {
    pub entries: Vec<CacheEntry>,
}

impl View for TypeCache {
    type V = Map<CacheKey, CacheStateView>;

    open spec fn view(&self) -> Map<CacheKey, CacheStateView> {
        entries_map(self.entries@)
    }
}

/// The entry at `i` decides the key `k` where it has that key and no later
/// entry has it.
pub proof fn lemma_last_entry_decides(entries: Seq<CacheEntry>, k: CacheKey, i: int)
    requires
        0 <= i < entries.len(),
        entries[i].key() == k,
        forall|j: int| i < j < entries.len() ==> entries[j].key() != k,
    ensures
        entries_map(entries).contains_key(k),
        entries_map(entries)[k] == entries[i].state@,
    decreases entries.len(),
{
    if i < entries.len() - 1 {
        lemma_last_entry_decides(entries.drop_last(), k, i);
    }
}

/// A key that no entry has is not in the map.
pub proof fn lemma_no_entry_no_key(entries: Seq<CacheEntry>, k: CacheKey)
    requires
        forall|j: int| 0 <= j < entries.len() ==> entries[j].key() != k,
    ensures
        !entries_map(entries).contains_key(k),
    decreases entries.len(),
{
    if entries.len() > 0 {
        lemma_no_entry_no_key(entries.drop_last(), k);
    }
}

/// Lists of entries that agree in keys and states, entry by entry, stand for
/// the same map.
pub proof fn lemma_same_entries_same_map(a: Seq<CacheEntry>, b: Seq<CacheEntry>)
    requires
        a.len() == b.len(),
        forall|i: int| 0 <= i < a.len() ==> a[i].key() == b[i].key() && a[i].state@ == b[i].state@,
    ensures
        entries_map(a) == entries_map(b),
    decreases a.len(),
{
    if a.len() > 0 {
        lemma_same_entries_same_map(a.drop_last(), b.drop_last());
    }
}

impl TypeCache {
    /// A copy of the memo.
    pub fn duplicate(&self) -> (r: TypeCache)
        ensures
            r@ == self@,
    {
        let mut entries: Vec<CacheEntry> = Vec::new();
        let mut i: usize = 0;
        while i < self.entries.len()
            invariant
                i <= self.entries@.len(),
                entries@.len() == i,
                forall|j: int|
                    0 <= j < i ==> entries@[j].key() == self.entries@[j].key() && entries@[j].state@
                        == self.entries@[j].state@,
            decreases self.entries@.len() - i,
        {
            let e = &self.entries[i];
            let state = match &e.state {
                CacheState::Pending => CacheState::Pending,
                CacheState::Cached(v) => CacheState::Cached(duplicate_lowered(v)),
            };
            entries.push(
                CacheEntry { expr: e.expr.duplicate(), ambient: duplicate_types(&e.ambient), state },
            );
            i += 1;
        }
        proof {
            lemma_same_entries_same_map(entries@, self.entries@);
        }
        TypeCache { entries }
    }

    /// An empty memo.
    pub fn new() -> (r: TypeCache)
        ensures
            r@ == Map::<CacheKey, CacheStateView>::empty(),
    {
        TypeCache { entries: Vec::new() }
    }

    /// The index of the entry that decides the key of `expr` under `ambient`.
    fn find(&self, expr: &TypeExpression, ambient: &Vec<TypeExpression>) -> (r: Option<usize>)
        ensures
            match r {
                Some(i) => i < self.entries@.len() && self@.contains_key(
                    CacheKey { expr: expr@, ambient: models(ambient@) },
                ) && self@[CacheKey { expr: expr@, ambient: models(ambient@) }]
                    == self.entries@[i as int].state@,
                None => !self@.contains_key(CacheKey { expr: expr@, ambient: models(ambient@) }),
            },
    {
        let ghost k = CacheKey { expr: expr@, ambient: models(ambient@) };
        let mut i: usize = self.entries.len();
        while i > 0
            invariant
                i <= self.entries@.len(),
                k == (CacheKey { expr: expr@, ambient: models(ambient@) }),
                forall|j: int| i <= j < self.entries@.len() ==> self.entries@[j].key() != k,
            decreases i,
        {
            let e = &self.entries[i - 1];
            if e.expr.same_as(expr) && same_types(&e.ambient, ambient) {
                proof {
                    lemma_last_entry_decides(self.entries@, k, i - 1);
                }
                return Some(i - 1);
            }
            i -= 1;
        }
        proof {
            lemma_no_entry_no_key(self.entries@, k);
        }
        None
    }

    /// Whether the memo holds a state for `expr` under `ambient`.
    pub fn contains(&self, expr: &TypeExpression, ambient: &Vec<TypeExpression>) -> (r: bool)
        ensures
            r == self@.contains_key(CacheKey { expr: expr@, ambient: models(ambient@) }),
    {
        self.find(expr, ambient).is_some()
    }

    /// Whether the lowering of `expr` under `ambient` is under way.
    pub fn is_pending(&self, expr: &TypeExpression, ambient: &Vec<TypeExpression>) -> (r: bool)
        ensures
            r == (self@.contains_key(CacheKey { expr: expr@, ambient: models(ambient@) })
                && self@[CacheKey { expr: expr@, ambient: models(ambient@) }] is Pending),
    {
        match self.find(expr, ambient) {
            Some(i) => match &self.entries[i].state {
                CacheState::Pending => true,
                CacheState::Cached(_) => false,
            },
            None => false,
        }
    }

    /// A copy of the cached lowering of `expr` under `ambient`.
    pub fn cached(&self, expr: &TypeExpression, ambient: &Vec<TypeExpression>) -> (r: Option<
        Vec<Lowered>,
    >)
        ensures
            match r {
                Some(v) => self@.contains_key(CacheKey { expr: expr@, ambient: models(ambient@) })
                    && self@[CacheKey { expr: expr@, ambient: models(ambient@) }]
                    == CacheStateView::Cached(seq_view(v@)),
                None => !(self@.contains_key(CacheKey { expr: expr@, ambient: models(ambient@) })
                    && self@[CacheKey { expr: expr@, ambient: models(ambient@) }] is Cached),
            },
    {
        match self.find(expr, ambient) {
            Some(i) => match &self.entries[i].state {
                CacheState::Pending => None,
                CacheState::Cached(v) => Some(duplicate_lowered(v)),
            },
            None => None,
        }
    }

    /// Sets the state of `expr` under `ambient`.
    pub fn set(&mut self, expr: &TypeExpression, ambient: &Vec<TypeExpression>, state: CacheState)
        ensures
            final(self)@ == old(self)@.insert(
                CacheKey { expr: expr@, ambient: models(ambient@) },
                state@,
            ),
    {
        let entry = CacheEntry {
            expr: expr.duplicate(),
            ambient: duplicate_types(ambient),
            state,
        };
        self.entries.push(entry);
        assert(self.entries@.drop_last() =~= old(self).entries@);
    }
}

} // verus!
