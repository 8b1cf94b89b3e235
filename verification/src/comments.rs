//! The documentation of the types that cross the boundary, gathered for the
//! definitions on the caller's side.
//!
//! A comment is keyed by a qualified name: the namespace and the name of a
//! struct or enum, and for a field or variant its own name after that.

use crate::document::{InterfaceDocument, Item, ItemKind, StructShape};
use crate::lowering::item_name;
use crate::resolver::Resolver;
use crate::text::{push_text, views};
use vstd::prelude::*;

verus! {

/// The documentation of one type, field or variant.
#[derive(Debug, Clone, PartialEq, Eq)]
pub struct DocComment {
    /// The qualified name that the comment belongs to.
    pub path: Vec<String>,
    pub text: String,
}

pub struct DocCommentView {
    pub path: Seq<Seq<char>>,
    pub text: Seq<char>,
}

impl View for DocComment {
    type V = DocCommentView;

    open spec fn view(&self) -> DocCommentView {
        DocCommentView { path: views(self.path@), text: self.text@ }
    }
}

/// The views of the comments of `v`, in order.
pub open spec fn comment_views(v: Seq<DocComment>) -> Seq<DocCommentView> {
    Seq::new(v.len(), |i: int| v[i]@)
}

/// The comment of `item` under the qualified name `path`, if the item is
/// documented.
pub open spec fn own_comment(item: Item, path: Seq<Seq<char>>) -> Seq<DocCommentView> {
    match item.docs {
        Some(d) => seq![DocCommentView { path, text: d@ }],
        None => Seq::empty(),
    }
}

/// The comments of the first `n` fields or variants, given by `ids`, of the
/// type with the qualified name `parent`. A member that the document does
/// not hold has none.
pub open spec fn member_comments(
    doc: InterfaceDocument,
    parent: Seq<Seq<char>>,
    ids: Seq<u32>,
    n: int,
) -> Seq<DocCommentView>
    decreases n,
{
    if n <= 0 || n > ids.len() {
        Seq::empty()
    } else {
        let before = member_comments(doc, parent, ids, n - 1);
        match doc.item_index(ids[n - 1]) {
            Some(j) => before + own_comment(
                doc.items@[j],
                parent.push(item_name(doc.items@[j])),
            ),
            None => before,
        }
    }
}

/// The identifiers of the fields of a struct or of the variants of an enum;
/// `None` for any other item.
pub open spec fn members_of(item: Item) -> Option<Seq<u32>> {
    match item.kind {
        ItemKind::Struct(StructShape::Plain(fields)) => Some(fields@),
        ItemKind::Struct(_) => Some(Seq::empty()),
        ItemKind::Enum(variants) => Some(variants@),
        _ => None,
    }
}

/// The comments of a struct or enum and of its fields or variants.
pub open spec fn item_comments(doc: InterfaceDocument, namespace: Seq<char>, item: Item) -> Seq<
    DocCommentView,
> {
    match members_of(item) {
        Some(ids) => {
            let path = seq![namespace, item_name(item)];
            own_comment(item, path) + member_comments(doc, path, ids, ids.len() as int)
        },
        None => Seq::empty(),
    }
}

/// The comments of the first `n` items of a document.
pub open spec fn document_comments(doc: InterfaceDocument, namespace: Seq<char>, n: int) -> Seq<
    DocCommentView,
>
    decreases n,
{
    if n <= 0 || n > doc.items@.len() {
        Seq::empty()
    } else {
        document_comments(doc, namespace, n - 1) + item_comments(
            doc,
            namespace,
            doc.items@[n - 1],
        )
    }
}

/// The comments of the first `n` documents.
pub open spec fn all_comments(docs: Seq<InterfaceDocument>, namespace: Seq<char>, n: int) -> Seq<
    DocCommentView,
>
    decreases n,
{
    if n <= 0 || n > docs.len() {
        Seq::empty()
    } else {
        all_comments(docs, namespace, n - 1) + document_comments(
            docs[n - 1],
            namespace,
            docs[n - 1].items@.len() as int,
        )
    }
}

/// Appends the comments of `more` to `out`.
fn append_comments(out: &mut Vec<DocComment>, more: Vec<DocComment>)
    ensures
        comment_views(final(out)@) == comment_views(old(out)@) + comment_views(more@),
{
    let mut more = more;
    let ghost a = out@;
    let ghost b = more@;
    out.append(&mut more);
    assert(comment_views(a + b) =~= comment_views(a) + comment_views(b));
}

/// The comment of `item` under the qualified name `path`.
fn comment_of(item: &Item, path: Vec<String>) -> (r: Vec<DocComment>)
    ensures
        comment_views(r@) == own_comment(*item, views(path@)),
{
    let mut out: Vec<DocComment> = Vec::new();
    assert(comment_views(out@) =~= Seq::empty());
    match &item.docs {
        Some(d) => {
            let comment = DocComment { path, text: d.clone() };
            out.push(comment);
            assert(comment_views(out@) =~= seq![comment@]);
        },
        None => {},
    }
    out
}

/// The name of an item; the empty name where it has none.
fn name_of(item: &Item) -> (r: String)
    ensures
        r@ == item_name(*item),
{
    match &item.name {
        Some(n) => n.clone(),
        None => String::new(),
    }
}

/// The comments of a struct or enum of `doc` and of its fields or variants.
fn comments_of_item(doc: &InterfaceDocument, namespace: &str, item: &Item) -> (r: Vec<DocComment>)
    ensures
        comment_views(r@) == item_comments(*doc, namespace@, *item),
{
    let none: Vec<u32> = Vec::new();
    let ids: &Vec<u32> = match &item.kind {
        ItemKind::Struct(StructShape::Plain(fields)) => fields,
        ItemKind::Struct(_) => &none,
        ItemKind::Enum(variants) => variants,
        _ => {
            let out: Vec<DocComment> = Vec::new();
            assert(comment_views(out@) =~= Seq::empty());
            return out;
        },
    };
    assert(members_of(*item) == Some(ids@));
    let mut path: Vec<String> = Vec::new();
    assert(views(path@) =~= Seq::empty());
    push_text(&mut path, String::from_str(namespace));
    push_text(&mut path, name_of(item));
    assert(views(path@) =~= seq![namespace@, item_name(*item)]);
    let ghost parent = views(path@);
    let mut out = comment_of(item, copy_path(&path));
    let ghost head = comment_views(out@);
    let mut n: usize = 0;
    assert(comment_views(out@) =~= head + member_comments(*doc, parent, ids@, 0));
    while n < ids.len()
        invariant
            n <= ids@.len(),
            parent == views(path@),
            comment_views(out@) == head + member_comments(*doc, parent, ids@, n as int),
        decreases ids@.len() - n,
    {
        match doc.find_item(ids[n]) {
            Some(j) => {
                let member = &doc.items[j];
                let mut member_path = copy_path(&path);
                push_text(&mut member_path, name_of(member));
                let ghost before = comment_views(out@);
                append_comments(&mut out, comment_of(member, member_path));
                assert(comment_views(out@) =~= head + member_comments(
                    *doc,
                    parent,
                    ids@,
                    n + 1,
                ));
            },
            None => {},
        }
        n += 1;
    }
    out
}

/// A copy of the names of `path`.
fn copy_path(path: &Vec<String>) -> (r: Vec<String>)
    ensures
        views(r@) == views(path@),
{
    let mut out: Vec<String> = Vec::new();
    let mut i: usize = 0;
    while i < path.len()
        invariant
            i <= path@.len(),
            out@.len() == i,
            forall|j: int| 0 <= j < i ==> out@[j]@ == path@[j]@,
        decreases path@.len() - i,
    {
        out.push(path[i].clone());
        i += 1;
    }
    assert(views(out@) =~= views(path@));
    out
}

/// The documentation of all structs and enums of the loaded documents, and
/// of their fields and variants, under the namespace `namespace`.
pub fn collect_comments(resolver: &Resolver, namespace: &str) -> (r: Vec<DocComment>)
    ensures
        comment_views(r@) == all_comments(
            resolver.documents@,
            namespace@,
            resolver.documents@.len() as int,
        ),
{
    let mut out: Vec<DocComment> = Vec::new();
    let mut d: usize = 0;
    assert(comment_views(out@) =~= Seq::empty());
    while d < resolver.documents.len()
        invariant
            d <= resolver.documents@.len(),
            comment_views(out@) == all_comments(resolver.documents@, namespace@, d as int),
        decreases resolver.documents@.len() - d,
    {
        let doc = &resolver.documents[d];
        let ghost head = comment_views(out@);
        let mut n: usize = 0;
        assert(comment_views(out@) =~= head + document_comments(*doc, namespace@, 0));
        while n < doc.items.len()
            invariant
                n <= doc.items@.len(),
                comment_views(out@) == head + document_comments(*doc, namespace@, n as int),
            decreases doc.items@.len() - n,
        {
            append_comments(&mut out, comments_of_item(doc, namespace, &doc.items[n]));
            assert(comment_views(out@) =~= head + document_comments(*doc, namespace@, n + 1));
            n += 1;
        }
        d += 1;
    }
    out
}

} // verus!
