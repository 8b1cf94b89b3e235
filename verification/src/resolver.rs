//! The symbol resolver: from identifiers and paths to items.
//!
//! The resolver owns the documents of one build pass. The first of them is
//! the primary document; the others are kept in the order in which they were
//! added, one per module name.

use crate::document::{
    first_where, lemma_first_where_absent, lemma_first_where_found, InterfaceDocument, Item,
    PathComponent, SummaryKind,
};
use crate::error::{BuildError, BuildErrorView};
use crate::text::{
    before_last, last_index_of, path_segments, replace_dashes, same_text, split_path,
    underscored, views,
};
use crate::types::{models, TypeExpression, TypeView};
use vstd::prelude::*;

verus! {

/// Whether `c` is the ordinary path step named `name`.
pub open spec fn is_normal(c: PathComponent, name: Seq<char>) -> bool {
    c matches PathComponent::Normal(s) && s@ == name
}

/// The greatest index in `1..end` that holds the step `src`, or -1.
pub open spec fn last_src(comps: Seq<PathComponent>, end: int) -> int
    decreases end,
{
    if end <= 1 || end > comps.len() {
        -1
    } else if is_normal(comps[end - 1], "src"@) {
        end - 1
    } else {
        last_src(comps, end - 1)
    }
}

/// Whether the steps at `k` and `k + 1` lead into a package registry:
/// `.cargo` or `cargo`, then `registry`.
pub open spec fn registry_at(comps: Seq<PathComponent>, k: int) -> bool {
    1 <= k && k + 1 < comps.len() && (is_normal(comps[k], ".cargo"@) || is_normal(
        comps[k],
        "cargo"@,
    )) && is_normal(comps[k + 1], "registry"@)
}

/// The least index from `from` on at which the path enters a registry, or -1.
pub open spec fn first_registry(comps: Seq<PathComponent>, from: int) -> int
    decreases comps.len() - from,
{
    if from < 1 || from >= comps.len() {
        -1
    } else if registry_at(comps, from) {
        from
    } else {
        first_registry(comps, from + 1)
    }
}

/// The module that a source path belongs to.
///
/// A relative path names the module by the directory above its last `src`
/// step, or by its first step where no directory stands there. An absolute
/// path must lead through a package registry; the fourth step after the entry
/// is the package directory, whose name without its version is the module.
/// Dashes become underscores.
pub open spec fn span_crate(span: Option<Vec<PathComponent>>) -> Result<Seq<char>, BuildErrorView> {
    match span {
        None => Err(BuildErrorView::UnknownIdentifier),
        Some(v) => {
            let comps = v@;
            if comps.len() == 0 {
                Err(BuildErrorView::UnknownIdentifier)
            } else {
                match comps[0] {
                    PathComponent::Normal(_) => {
                        let k = last_src(comps, comps.len() as int);
                        let dir = if k >= 1 {
                            comps[k - 1]
                        } else {
                            comps[0]
                        };
                        match dir {
                            PathComponent::Normal(s) => Ok(underscored(s@)),
                            _ => Err(BuildErrorView::UnknownIdentifier),
                        }
                    },
                    PathComponent::RootDir | PathComponent::Prefix => {
                        let k = first_registry(comps, 1);
                        if k < 0 || k + 4 >= comps.len() {
                            Err(BuildErrorView::UnknownIdentifier)
                        } else {
                            match comps[k + 4] {
                                PathComponent::Normal(s) => {
                                    let i = last_index_of(s@, '-', s@.len() as int);
                                    if i < 0 {
                                        Err(BuildErrorView::UnknownIdentifier)
                                    } else {
                                        Ok(underscored(s@.subrange(0, i)))
                                    }
                                },
                                _ => Err(BuildErrorView::UnknownIdentifier),
                            }
                        }
                    },
                    _ => Err(BuildErrorView::UnknownIdentifier),
                }
            }
        },
    }
}

/// Whether `c` is the ordinary path step named `name`.
pub fn component_is(c: &PathComponent, name: &str) -> (r: bool)
    ensures
        r == is_normal(*c, name@),
{
    match c {
        PathComponent::Normal(s) => same_text(s.as_str(), name),
        _ => false,
    }
}

fn find_last_src(comps: &Vec<PathComponent>) -> (r: Option<usize>)
    ensures
        match r {
            Some(k) => last_src(comps@, comps@.len() as int) == k && 1 <= k < comps@.len(),
            None => last_src(comps@, comps@.len() as int) == -1,
        },
{
    let n = comps.len();
    let mut k: usize = n;
    while k > 1
        invariant
            n == comps@.len(),
            k <= n,
            last_src(comps@, n as int) == last_src(comps@, k as int),
        decreases k,
    {
        if component_is(&comps[k - 1], "src") {
            return Some(k - 1);
        }
        k -= 1;
    }
    None
}

fn find_registry(comps: &Vec<PathComponent>) -> (r: Option<usize>)
    ensures
        match r {
            Some(k) => first_registry(comps@, 1) == k && 1 <= k && k + 1 < comps@.len(),
            None => first_registry(comps@, 1) == -1,
        },
{
    let n = comps.len();
    let mut k: usize = 1;
    while k < n
        invariant
            n == comps@.len(),
            1 <= k,
            first_registry(comps@, 1) == first_registry(comps@, k as int),
        decreases n - k,
    {
        if k + 1 < n && (component_is(&comps[k], ".cargo") || component_is(&comps[k], "cargo"))
            && component_is(&comps[k + 1], "registry") {
            return Some(k);
        }
        k += 1;
    }
    None
}

/// The module that the source path of `item` belongs to.
pub fn crate_from_span(item: &Item) -> (r: Result<String, BuildError>)
    ensures
        match r {
            Ok(s) => span_crate(item.span) == Ok::<Seq<char>, BuildErrorView>(s@),
            Err(e) => span_crate(item.span) == Err::<Seq<char>, BuildErrorView>(e@),
        },
{
    let comps = match &item.span {
        None => {
            return Err(BuildError::UnknownIdentifier);
        },
        Some(v) => v,
    };
    let n = comps.len();
    if n == 0 {
        return Err(BuildError::UnknownIdentifier);
    }
    match &comps[0] {
        PathComponent::Normal(_) => {
            let dir: usize = match find_last_src(comps) {
                Some(k) => k - 1,
                None => 0,
            };
            match &comps[dir] {
                PathComponent::Normal(s) => Ok(replace_dashes(s.as_str())),
                _ => Err(BuildError::UnknownIdentifier),
            }
        },
        PathComponent::RootDir | PathComponent::Prefix => {
            match find_registry(comps) {
                None => Err(BuildError::UnknownIdentifier),
                Some(k) => {
                    if n - k <= 4 {
                        return Err(BuildError::UnknownIdentifier);
                    }
                    match &comps[k + 4] {
                        PathComponent::Normal(s) => match before_last(s.as_str(), '-') {
                            Some(head) => Ok(replace_dashes(head.as_str())),
                            None => Err(BuildError::UnknownIdentifier),
                        },
                        _ => Err(BuildError::UnknownIdentifier),
                    }
                },
            }
        },
        _ => Err(BuildError::UnknownIdentifier),
    }
}

/// The documents named `name`.
pub open spec fn is_named(name: Seq<char>) -> spec_fn(InterfaceDocument) -> bool {
    |d: InterfaceDocument| d.name@ == name
}

/// The index of the document of the module `name`.
pub open spec fn document_index(docs: Seq<InterfaceDocument>, name: Seq<char>) -> Option<int> {
    first_where(docs, is_named(name))
}

/// The places, as pairs of a document's index and an item's index, at which
/// the documents hold an item for `id`: one per document that has it, in the
/// order of the documents.
pub open spec fn candidates(docs: Seq<InterfaceDocument>, id: u32) -> Seq<(int, int)>
    decreases docs.len(),
{
    if docs.len() == 0 {
        Seq::empty()
    } else {
        let before = candidates(docs.drop_last(), id);
        match docs.last().item_index(id) {
            Some(j) => before.push((docs.len() - 1, j)),
            None => before,
        }
    }
}

/// The places at which the documents hold a path summary for `id`: one per
/// document that has it, in the order of the documents.
pub open spec fn summaries(docs: Seq<InterfaceDocument>, id: u32) -> Seq<(int, int)>
    decreases docs.len(),
{
    if docs.len() == 0 {
        Seq::empty()
    } else {
        let before = summaries(docs.drop_last(), id);
        match docs.last().summary_index(id) {
            Some(j) => before.push((docs.len() - 1, j)),
            None => before,
        }
    }
}

/// The places whose item lies in a source file of the module `origin`.
pub open spec fn from_origin(docs: Seq<InterfaceDocument>, origin: Seq<char>) -> spec_fn(
    (int, int),
) -> bool {
    |at: (int, int)|
        span_crate(docs[at.0].items@[at.1].span) == Ok::<Seq<char>, BuildErrorView>(origin)
}

/// Whether every place of `places` is an item of `docs`.
pub open spec fn places_in(docs: Seq<InterfaceDocument>, places: Seq<(int, int)>) -> bool {
    forall|k: int|
        0 <= k < places.len() ==> 0 <= (#[trigger] places[k]).0 < docs.len() && 0 <= places[k].1
            < docs[places[k].0].items@.len()
}

/// Whether every place of `places` is a path summary of `docs`.
pub open spec fn summaries_in(docs: Seq<InterfaceDocument>, places: Seq<(int, int)>) -> bool {
    forall|k: int|
        0 <= k < places.len() ==> 0 <= (#[trigger] places[k]).0 < docs.len() && 0 <= places[k].1
            < docs[places[k].0].paths@.len()
}

/// The place that the summaries from `k` on lead to: the first summary whose
/// module holds the identifier, or an item of the summary's name and coarse
/// kind. A summary whose module has no document asks for that document.
pub open spec fn fallback_from(
    docs: Seq<InterfaceDocument>,
    id: u32,
    sums: Seq<(int, int)>,
    k: int,
) -> Result<(int, int), BuildErrorView>
    decreases sums.len() - k,
{
    if k < 0 || k >= sums.len() {
        Err(BuildErrorView::UnknownIdentifier)
    } else {
        let summary = docs[sums[k].0].paths@[sums[k].1];
        if summary.path@.len() == 0 {
            fallback_from(docs, id, sums, k + 1)
        } else {
            match document_index(docs, summary.path@[0]@) {
                None => Err(BuildErrorView::MissingDocument(summary.path@[0]@)),
                Some(d) => match docs[d].item_index(id) {
                    Some(j) => Ok((d, j)),
                    None => match docs[d].named_index(summary.path@.last()@, summary.kind) {
                        Some(j) => Ok((d, j)),
                        None => fallback_from(docs, id, sums, k + 1),
                    },
                },
            }
        }
    }
}

/// The place of the item that `id` resolves to, seen from the module `origin`.
///
/// One candidate is the answer. Of several, the first that lies in `origin`
/// is, if its identifier is local; no other choice is made. With none the
/// path summaries decide.
pub open spec fn resolved_place(
    docs: Seq<InterfaceDocument>,
    id: u32,
    origin: Seq<char>,
) -> Result<(int, int), BuildErrorView> {
    let found = candidates(docs, id);
    if found.len() == 1 {
        Ok(found[0])
    } else if found.len() > 1 {
        match first_where(found, from_origin(docs, origin)) {
            Some(k) => if docs[found[k].0].items@[found[k].1].local {
                Ok(found[k])
            } else {
                Err(BuildErrorView::AmbiguousResolution)
            },
            None => Err(BuildErrorView::AmbiguousResolution),
        }
    } else {
        fallback_from(docs, id, summaries(docs, id), 0)
    }
}

/// The path that `path` stands for, seen from the module `origin`: its
/// segments, with a leading `crate` replaced by `origin`.
pub open spec fn absolute_path(path: Seq<char>, origin: Seq<char>) -> Seq<Seq<char>> {
    let raw = path_segments(path);
    if raw.len() > 0 && raw[0] == "crate"@ {
        raw.update(0, origin)
    } else {
        raw
    }
}

/// The type expression that the fully qualified `path` resolves to.
///
/// The first segment names the module, whose document must be loaded. The
/// path must have a summary there, of the kind `expected`.
pub open spec fn resolved_path(
    docs: Seq<InterfaceDocument>,
    path: Seq<char>,
    origin: Seq<char>,
    expected: SummaryKind,
) -> Result<TypeView, BuildErrorView> {
    let parts = absolute_path(path, origin);
    if parts.len() == 0 {
        Err(BuildErrorView::UnknownIdentifier)
    } else {
        match document_index(docs, parts[0]) {
            None => Err(BuildErrorView::MissingDocument(parts[0])),
            Some(d) => match docs[d].path_index(parts) {
                None => Err(BuildErrorView::UnknownIdentifier),
                Some(j) => if docs[d].paths@[j].kind == expected {
                    Ok(
                        TypeView::NamedPath {
                            name: parts.last(),
                            id: docs[d].paths@[j].id,
                            args: Seq::empty(),
                        },
                    )
                } else {
                    Err(BuildErrorView::UnknownIdentifier)
                },
            },
        }
    }
}

/// The documents of one build pass, and the name of the error type that
/// every fallible call of the pass is normalized to.
pub struct Resolver {
    pub documents: Vec<InterfaceDocument>,
    pub error_type: String,
}

/// A place in the documents of a resolver: an item of a document.
#[derive(Debug, Clone, Copy, PartialEq, Eq)]
pub struct Place {
    pub document: usize,
    pub item: usize,
}

impl Resolver {
    /// A resolver always holds its primary document.
    pub open spec fn wf(&self) -> bool {
        self.documents@.len() > 0
    }

    /// The item at `place`.
    pub open spec fn item_at(&self, place: (int, int)) -> Item {
        self.documents@[place.0].items@[place.1]
    }

    /// A resolver that holds the primary document alone. Its error type is
    /// `SerializableError`.
    pub fn new(primary: InterfaceDocument) -> (r: Resolver)
        ensures
            r.wf(),
            r.documents@ == seq![primary],
            r.error_type@ == "SerializableError"@,
    {
        let mut documents: Vec<InterfaceDocument> = Vec::new();
        documents.push(primary);
        Resolver { documents, error_type: String::from_str("SerializableError") }
    }

    /// This resolver with the error type named `name`.
    pub fn with_error_type(self, name: String) -> (r: Resolver)
        ensures
            r.documents == self.documents,
            r.error_type == name,
    {
        Resolver { documents: self.documents, error_type: name }
    }

    /// The index of the document of the module `name`.
    pub fn find_document(&self, name: &str) -> (r: Option<usize>)
        ensures
            match r {
                Some(d) => document_index(self.documents@, name@) == Some(d as int) && d
                    < self.documents@.len(),
                None => document_index(self.documents@, name@) is None,
            },
    {
        let mut d: usize = 0;
        while d < self.documents.len()
            invariant
                d <= self.documents@.len(),
                forall|k: int| 0 <= k < d ==> !is_named(name@)(self.documents@[k]),
            decreases self.documents@.len() - d,
        {
            if same_text(self.documents[d].name.as_str(), name) {
                proof {
                    lemma_first_where_found(self.documents@, is_named(name@), d as int);
                }
                return Some(d);
            }
            d += 1;
        }
        proof {
            lemma_first_where_absent(self.documents@, is_named(name@));
        }
        None
    }

    /// Whether the document of the module `name` is loaded.
    pub fn has_document(&self, name: &str) -> (r: bool)
        ensures
            r == document_index(self.documents@, name@).is_some(),
    {
        self.find_document(name).is_some()
    }

    /// Adds `doc`, unless a document of its module is loaded already: the
    /// first one of a name stays.
    pub fn add_document(&mut self, doc: InterfaceDocument)
        requires
            old(self).wf(),
        ensures
            final(self).wf(),
            final(self).error_type == old(self).error_type,
            final(self).documents@ == if document_index(old(self).documents@, doc.name@).is_some() {
                old(self).documents@
            } else {
                old(self).documents@.push(doc)
            },
    {
        if !self.has_document(doc.name.as_str()) {
            self.documents.push(doc);
        }
    }

    /// The item at `place`.
    pub fn item(&self, place: Place) -> (r: &Item)
        requires
            place.document < self.documents@.len(),
            place.item < self.documents@[place.document as int].items@.len(),
        ensures
            *r == self.item_at((place.document as int, place.item as int)),
    {
        &self.documents[place.document].items[place.item]
    }

    fn collect_candidates(&self, id: u32) -> (r: Vec<Place>)
        ensures
            place_pairs(r@) == candidates(self.documents@, id),
            places_in(self.documents@, place_pairs(r@)),
    {
        let mut out: Vec<Place> = Vec::new();
        let mut d: usize = 0;
        assert(self.documents@.take(0) =~= Seq::empty());
        while d < self.documents.len()
            invariant
                d <= self.documents@.len(),
                place_pairs(out@) == candidates(self.documents@.take(d as int), id),
                places_in(self.documents@, place_pairs(out@)),
            decreases self.documents@.len() - d,
        {
            let ghost before = place_pairs(out@);
            assert(self.documents@.take(d + 1).drop_last() =~= self.documents@.take(d as int));
            assert(self.documents@.take(d + 1).last() == self.documents@[d as int]);
            match self.documents[d].find_item(id) {
                Some(j) => {
                    out.push(Place { document: d, item: j });
                    assert(place_pairs(out@) =~= before.push((d as int, j as int)));
                },
                None => {},
            }
            d += 1;
        }
        assert(self.documents@.take(d as int) =~= self.documents@);
        out
    }

    fn collect_summaries(&self, id: u32) -> (r: Vec<Place>)
        ensures
            place_pairs(r@) == summaries(self.documents@, id),
            summaries_in(self.documents@, place_pairs(r@)),
    {
        let mut out: Vec<Place> = Vec::new();
        let mut d: usize = 0;
        assert(self.documents@.take(0) =~= Seq::empty());
        while d < self.documents.len()
            invariant
                d <= self.documents@.len(),
                place_pairs(out@) == summaries(self.documents@.take(d as int), id),
                summaries_in(self.documents@, place_pairs(out@)),
            decreases self.documents@.len() - d,
        {
            let ghost before = place_pairs(out@);
            assert(self.documents@.take(d + 1).drop_last() =~= self.documents@.take(d as int));
            assert(self.documents@.take(d + 1).last() == self.documents@[d as int]);
            match self.documents[d].find_summary(id) {
                Some(j) => {
                    out.push(Place { document: d, item: j });
                    assert(place_pairs(out@) =~= before.push((d as int, j as int)));
                },
                None => {},
            }
            d += 1;
        }
        assert(self.documents@.take(d as int) =~= self.documents@);
        out
    }

    /// Resolves `id`, seen from the module `origin`, to the place of its item.
    pub fn resolve_by_id(&self, id: u32, origin: &str) -> (r: Result<Place, BuildError>)
        ensures
            match r {
                Ok(p) => resolved_place(self.documents@, id, origin@) == Ok::<
                    (int, int),
                    BuildErrorView,
                >((p.document as int, p.item as int)) && p.document < self.documents@.len()
                    && p.item < self.documents@[p.document as int].items@.len(),
                Err(e) => resolved_place(self.documents@, id, origin@) == Err::<
                    (int, int),
                    BuildErrorView,
                >(e@),
            },
    {
        let found = self.collect_candidates(id);
        if found.len() == 1 {
            return Ok(found[0]);
        }
        if found.len() > 1 {
            let ghost pairs = place_pairs(found@);
            let ghost pred = from_origin(self.documents@, origin@);
            let mut k: usize = 0;
            while k < found.len()
                invariant
                    k <= found@.len(),
                    found@.len() > 1,
                    pairs == place_pairs(found@),
                    pairs == candidates(self.documents@, id),
                    pred == from_origin(self.documents@, origin@),
                    places_in(self.documents@, pairs),
                    forall|m: int| 0 <= m < k ==> !pred(pairs[m]),
                decreases found@.len() - k,
            {
                let place = found[k];
                assert(pairs[k as int] == (place.document as int, place.item as int));
                let it = self.item(place);
                let from_here = match crate_from_span(it) {
                    Ok(name) => same_text(name.as_str(), origin),
                    Err(_) => false,
                };
                if from_here {
                    proof {
                        lemma_first_where_found(pairs, pred, k as int);
                    }
                    if it.local {
                        return Ok(place);
                    } else {
                        return Err(BuildError::AmbiguousResolution);
                    }
                }
                k += 1;
            }
            proof {
                lemma_first_where_absent(pairs, pred);
            }
            return Err(BuildError::AmbiguousResolution);
        }
        let sums = self.collect_summaries(id);
        let ghost pairs = place_pairs(sums@);
        let mut k: usize = 0;
        while k < sums.len()
            invariant
                k <= sums@.len(),
                pairs == place_pairs(sums@),
                pairs == summaries(self.documents@, id),
                candidates(self.documents@, id).len() == 0,
                summaries_in(self.documents@, pairs),
                fallback_from(self.documents@, id, pairs, 0) == fallback_from(
                    self.documents@,
                    id,
                    pairs,
                    k as int,
                ),
            decreases sums@.len() - k,
        {
            let at = sums[k];
            assert(pairs[k as int] == (at.document as int, at.item as int));
            let summary = &self.documents[at.document].paths[at.item];
            if summary.path.len() > 0 {
                match self.find_document(summary.path[0].as_str()) {
                    None => {
                        return Err(BuildError::MissingDocument(summary.path[0].clone()));
                    },
                    Some(d) => {
                        match self.documents[d].find_item(id) {
                            Some(j) => {
                                return Ok(Place { document: d, item: j });
                            },
                            None => {},
                        }
                        let last = &summary.path[summary.path.len() - 1];
                        match self.documents[d].find_named(last.as_str(), summary.kind) {
                            Some(j) => {
                                return Ok(Place { document: d, item: j });
                            },
                            None => {},
                        }
                    },
                }
            }
            k += 1;
        }
        Err(BuildError::UnknownIdentifier)
    }

    /// Resolves the fully qualified `path`, seen from the module `origin`, to
    /// a type expression for an item of the kind `expected`.
    pub fn resolve_by_path(&self, path: &str, origin: &str, expected: SummaryKind) -> (r: Result<
        TypeExpression,
        BuildError,
    >)
        ensures
            match r {
                Ok(t) => resolved_path(self.documents@, path@, origin@, expected) == Ok::<
                    TypeView,
                    BuildErrorView,
                >(t@),
                Err(e) => resolved_path(self.documents@, path@, origin@, expected) == Err::<
                    TypeView,
                    BuildErrorView,
                >(e@),
            },
    {
        let mut parts = split_path(path);
        if parts.len() == 0 {
            return Err(BuildError::UnknownIdentifier);
        }
        if same_text(parts[0].as_str(), "crate") {
            let ghost raw = views(parts@);
            parts.set(0, String::from_str(origin));
            assert(views(parts@) =~= raw.update(0, origin@));
        }
        assert(views(parts@) == absolute_path(path@, origin@));
        assert(views(parts@)[0] == parts@[0]@);
        assert(views(parts@).last() == parts@[parts@.len() - 1]@);
        let d = match self.find_document(parts[0].as_str()) {
            None => {
                return Err(BuildError::MissingDocument(parts[0].clone()));
            },
            Some(d) => d,
        };
        let doc = &self.documents[d];
        match doc.find_path(&parts) {
            None => Err(BuildError::UnknownIdentifier),
            Some(j) => {
                if doc.paths[j].kind == expected {
                    let args: Vec<TypeExpression> = Vec::new();
                    assert(models(args@) =~= Seq::empty());
                    Ok(
                        TypeExpression::NamedPath {
                            name: parts[parts.len() - 1].clone(),
                            id: doc.paths[j].id,
                            args,
                        },
                    )
                } else {
                    Err(BuildError::UnknownIdentifier)
                }
            },
        }
    }
}

/// The places of `v` as pairs of indices.
pub open spec fn place_pairs(v: Seq<Place>) -> Seq<(int, int)> {
    Seq::new(v.len(), |i: int| (v[i].document as int, v[i].item as int))
}

} // verus!
