//! Interface documents: the public surface of one compiled module.
//!
//! A document maps identifiers to items and fully qualified paths to
//! summaries. Both maps are kept as lists; a lookup takes the first entry
//! that matches.

use crate::text::{last_segment, name_without_path, same_text, views};
use crate::types::TypeExpression;
use vstd::prelude::*;

verus! {

/// One step of the path of a source file.
#[derive(Debug, Clone, PartialEq, Eq)]
pub enum PathComponent {
    Prefix,
    RootDir,
    CurDir,
    ParentDir,
    Normal(String),
}

/// What a variant of an enum carries.
#[derive(Debug, Clone, PartialEq, Eq)]
pub enum VariantPayload {
    /// Nothing.
    Plain,
    /// Unnamed payloads, each by the identifier of its field; a hidden one is `None`.
    Tuple(Vec<Option<u32>>),
    /// Named payloads, each by the identifier of its field.
    Struct(Vec<u32>),
}

/// The body of a struct.
#[derive(Debug, Clone, PartialEq, Eq)]
pub enum StructShape {
    /// Named fields, each by its identifier.
    Plain(Vec<u32>),
    Unit,
    Tuple,
}

/// One parameter of a function.
#[derive(Debug, PartialEq, Eq)]
pub struct Parameter {
    pub name: String,
    pub ty: TypeExpression,
}

/// The signature of a function or method.
#[derive(Debug, PartialEq, Eq)]
pub struct FunctionSignature {
    pub inputs: Vec<Parameter>,
    pub output: Option<TypeExpression>,
    /// Whether the function suspends: it is declared `async`.
    pub is_async: bool,
    /// Whether the function has the flat C calling convention.
    pub is_extern_c: bool,
}

/// What an item is.
#[derive(Debug, PartialEq, Eq)]
pub enum ItemKind {
    Struct(StructShape),
    /// An enum, with the identifiers of its variants in declaration order.
    Enum(Vec<u32>),
    Variant(VariantPayload),
    Function(FunctionSignature),
    /// An implementation block for a type, with the identifiers of its members.
    Impl { for_type: TypeExpression, items: Vec<u32> },
    StructField(TypeExpression),
    TypeAlias(TypeExpression),
    Other,
}

/// One item of a document.
#[derive(Debug, PartialEq, Eq)]
pub struct Item {
    pub id: u32,
    /// Whether the identifier is scoped to the module that the document describes.
    pub local: bool,
    pub name: Option<String>,
    pub docs: Option<String>,
    /// The attributes of the item, each as it was written.
    pub attrs: Vec<String>,
    /// The path of the source file that declares the item.
    pub span: Option<Vec<PathComponent>>,
    pub kind: ItemKind,
}

/// The coarse kind that a path summary records.
#[derive(Debug, Clone, Copy, PartialEq, Eq, Structural)]
pub enum SummaryKind {
    Struct,
    Enum,
    Function,
    TypeAlias,
    Other,
}

/// The summary of one fully qualified path.
#[derive(Debug, Clone, PartialEq, Eq)]
pub struct PathSummary {
    pub id: u32,
    pub path: Vec<String>,
    pub kind: SummaryKind,
}

/// The public surface of one module.
#[derive(Debug, PartialEq, Eq)]
pub struct InterfaceDocument {
    /// The name of the module.
    pub name: String,
    pub items: Vec<Item>,
    pub paths: Vec<PathSummary>,
}

/// The first index of `s` whose item meets `p`.
pub open spec fn first_where<T>(s: Seq<T>, p: spec_fn(T) -> bool) -> Option<int>
    decreases s.len(),
{
    if s.len() == 0 {
        None
    } else {
        match first_where(s.drop_last(), p) {
            Some(i) => Some(i),
            None => if p(s.last()) {
                Some(s.len() - 1)
            } else {
                None
            },
        }
    }
}

/// `first_where` finds `j` where `j` meets `p` and no earlier index does.
pub proof fn lemma_first_where_found<T>(s: Seq<T>, p: spec_fn(T) -> bool, j: int)
    requires
        0 <= j < s.len(),
        p(s[j]),
        forall|k: int| 0 <= k < j ==> !p(s[k]),
    ensures
        first_where(s, p) == Some(j),
    decreases s.len(),
{
    if s.len() - 1 == j {
        lemma_first_where_absent(s.drop_last(), p);
    } else {
        lemma_first_where_found(s.drop_last(), p, j);
    }
}

/// `first_where` finds nothing where no index meets `p`.
pub proof fn lemma_first_where_absent<T>(s: Seq<T>, p: spec_fn(T) -> bool)
    requires
        forall|k: int| 0 <= k < s.len() ==> !p(s[k]),
    ensures
        first_where(s, p) is None,
    decreases s.len(),
{
    if s.len() > 0 {
        lemma_first_where_absent(s.drop_last(), p);
    }
}

/// The items with the identifier `id`.
pub open spec fn has_id(id: u32) -> spec_fn(Item) -> bool {
    |it: Item| it.id == id
}

/// The summaries with the identifier `id`.
pub open spec fn summary_has_id(id: u32) -> spec_fn(PathSummary) -> bool {
    |s: PathSummary| s.id == id
}

/// The summaries of the path `parts`.
pub open spec fn summary_has_path(parts: Seq<Seq<char>>) -> spec_fn(PathSummary) -> bool {
    |s: PathSummary| views(s.path@) == parts
}

/// Whether an item of kind `kind` fits a summary of kind `coarse`: a struct
/// fits a struct, an enum an enum, and nothing else fits.
pub open spec fn kind_fits(kind: ItemKind, coarse: SummaryKind) -> bool {
    (kind is Struct && coarse == SummaryKind::Struct) || (kind is Enum && coarse
        == SummaryKind::Enum)
}

/// The items named `name` whose kind fits `coarse`.
pub open spec fn has_name_and_kind(name: Seq<char>, coarse: SummaryKind) -> spec_fn(Item) -> bool {
    |it: Item| it.name matches Some(n) && n@ == name && kind_fits(it.kind, coarse)
}

/// The items whose name, without its path, is `name`.
pub open spec fn has_short_name(name: Seq<char>) -> spec_fn(Item) -> bool {
    |it: Item| it.name matches Some(n) && last_segment(n@) == name
}

impl InterfaceDocument {
    /// The index of the item that `id` maps to.
    pub open spec fn item_index(self, id: u32) -> Option<int> {
        first_where(self.items@, has_id(id))
    }

    /// The index of the summary that `id` maps to.
    pub open spec fn summary_index(self, id: u32) -> Option<int> {
        first_where(self.paths@, summary_has_id(id))
    }

    /// The index of the summary of the path `parts`.
    pub open spec fn path_index(self, parts: Seq<Seq<char>>) -> Option<int> {
        first_where(self.paths@, summary_has_path(parts))
    }

    /// The index of the first item named `name` whose kind fits `coarse`.
    pub open spec fn named_index(self, name: Seq<char>, coarse: SummaryKind) -> Option<int> {
        first_where(self.items@, has_name_and_kind(name, coarse))
    }

    /// The index of the first item whose name, without its path, is `name`.
    pub open spec fn short_name_index(self, name: Seq<char>) -> Option<int> {
        first_where(self.items@, has_short_name(name))
    }

    /// Finds the item that `id` maps to.
    pub fn find_item(&self, id: u32) -> (r: Option<usize>)
        ensures
            match r {
                Some(j) => self.item_index(id) == Some(j as int) && j < self.items@.len(),
                None => self.item_index(id) is None,
            },
    {
        let mut j: usize = 0;
        while j < self.items.len()
            invariant
                j <= self.items@.len(),
                forall|k: int| 0 <= k < j ==> !has_id(id)(self.items@[k]),
            decreases self.items@.len() - j,
        {
            if self.items[j].id == id {
                proof {
                    lemma_first_where_found(self.items@, has_id(id), j as int);
                }
                return Some(j);
            }
            j += 1;
        }
        proof {
            lemma_first_where_absent(self.items@, has_id(id));
        }
        None
    }

    /// Finds the summary that `id` maps to.
    pub fn find_summary(&self, id: u32) -> (r: Option<usize>)
        ensures
            match r {
                Some(j) => self.summary_index(id) == Some(j as int) && j < self.paths@.len(),
                None => self.summary_index(id) is None,
            },
    {
        let mut j: usize = 0;
        while j < self.paths.len()
            invariant
                j <= self.paths@.len(),
                forall|k: int| 0 <= k < j ==> !summary_has_id(id)(self.paths@[k]),
            decreases self.paths@.len() - j,
        {
            if self.paths[j].id == id {
                proof {
                    lemma_first_where_found(self.paths@, summary_has_id(id), j as int);
                }
                return Some(j);
            }
            j += 1;
        }
        proof {
            lemma_first_where_absent(self.paths@, summary_has_id(id));
        }
        None
    }

    /// Finds the summary of the path `parts`.
    pub fn find_path(&self, parts: &Vec<String>) -> (r: Option<usize>)
        ensures
            match r {
                Some(j) => self.path_index(views(parts@)) == Some(j as int) && j
                    < self.paths@.len(),
                None => self.path_index(views(parts@)) is None,
            },
    {
        let mut j: usize = 0;
        while j < self.paths.len()
            invariant
                j <= self.paths@.len(),
                forall|k: int| 0 <= k < j ==> !summary_has_path(views(parts@))(self.paths@[k]),
            decreases self.paths@.len() - j,
        {
            if same_names(&self.paths[j].path, parts) {
                proof {
                    lemma_first_where_found(
                        self.paths@,
                        summary_has_path(views(parts@)),
                        j as int,
                    );
                }
                return Some(j);
            }
            j += 1;
        }
        proof {
            lemma_first_where_absent(self.paths@, summary_has_path(views(parts@)));
        }
        None
    }

    /// Finds the first item named `name` whose kind fits `coarse`.
    pub fn find_named(&self, name: &str, coarse: SummaryKind) -> (r: Option<usize>)
        ensures
            match r {
                Some(j) => self.named_index(name@, coarse) == Some(j as int) && j
                    < self.items@.len(),
                None => self.named_index(name@, coarse) is None,
            },
    {
        let mut j: usize = 0;
        while j < self.items.len()
            invariant
                j <= self.items@.len(),
                forall|k: int| 0 <= k < j ==> !has_name_and_kind(name@, coarse)(self.items@[k]),
            decreases self.items@.len() - j,
        {
            let it = &self.items[j];
            let fits = match (&it.kind, coarse) {
                (ItemKind::Struct(_), SummaryKind::Struct) => true,
                (ItemKind::Enum(_), SummaryKind::Enum) => true,
                _ => false,
            };
            let named = match &it.name {
                Some(n) => same_text(n.as_str(), name),
                None => false,
            };
            if fits && named {
                proof {
                    lemma_first_where_found(
                        self.items@,
                        has_name_and_kind(name@, coarse),
                        j as int,
                    );
                }
                return Some(j);
            }
            j += 1;
        }
        proof {
            lemma_first_where_absent(self.items@, has_name_and_kind(name@, coarse));
        }
        None
    }

    /// Finds the first item whose name, without its path, is `name`.
    pub fn find_short_name(&self, name: &str) -> (r: Option<usize>)
        ensures
            match r {
                Some(j) => self.short_name_index(name@) == Some(j as int) && j
                    < self.items@.len(),
                None => self.short_name_index(name@) is None,
            },
    {
        let mut j: usize = 0;
        while j < self.items.len()
            invariant
                j <= self.items@.len(),
                forall|k: int| 0 <= k < j ==> !has_short_name(name@)(self.items@[k]),
            decreases self.items@.len() - j,
        {
            let named = match &self.items[j].name {
                Some(n) => {
                    let short = name_without_path(n.as_str());
                    same_text(short.as_str(), name)
                },
                None => false,
            };
            if named {
                proof {
                    lemma_first_where_found(self.items@, has_short_name(name@), j as int);
                }
                return Some(j);
            }
            j += 1;
        }
        proof {
            lemma_first_where_absent(self.items@, has_short_name(name@));
        }
        None
    }
}

/// Whether the two lists hold the same names in the same order.
pub fn same_names(a: &Vec<String>, b: &Vec<String>) -> (r: bool)
    ensures
        r == (views(a@) == views(b@)),
{
    if a.len() != b.len() {
        assert(views(a@).len() != views(b@).len());
        return false;
    }
    let mut i: usize = 0;
    while i < a.len()
        invariant
            a.len() == b.len(),
            i <= a.len(),
            forall|j: int| 0 <= j < i ==> a@[j]@ == b@[j]@,
        decreases a.len() - i,
    {
        if a[i] != b[i] {
            assert(views(a@)[i as int] != views(b@)[i as int]);
            return false;
        }
        i += 1;
    }
    assert(views(a@) =~= views(b@));
    true
}

} // verus!
