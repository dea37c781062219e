//! The XML document that a project description is: its nodes in document
//! order, as plain values, and the questions that the parser asks of them.

use crate::text::same;
use vstd::prelude::*;

verus! {

/// One attribute of an element.
#[derive(Debug)]
pub struct XmlAttribute {
    pub name: String,
    pub value: String,
}

/// One node of a document. Nodes that are no elements (the document
/// itself, text, comments) have the empty name and no attributes.
#[derive(Debug)]
pub struct XmlNode {
    /// The index of the node that this one is a child of.
    pub parent: Option<usize>,
    pub is_element: bool,
    pub name: String,
    pub attributes: Vec<XmlAttribute>,
}

/// A document: its nodes in document order, the document itself first.
#[derive(Debug)]
pub struct XmlDocument {
    pub nodes: Vec<XmlNode>,
}

/// Why `roxmltree` could not read a text.
#[verifier::external_type_specification]
#[verifier::external_body]
pub struct ExXmlError(roxmltree::Error);

/// The nodes that `roxmltree` reads from a text, or none where it finds
/// the text to be no XML document.
pub uninterp spec fn xml_nodes(text: Seq<char>) -> Option<Seq<XmlNode>>;

/// Reads `text` with `roxmltree::Document::parse` and hands out the nodes of
/// the document, as `Document::descendants` walks them: for each its
/// parent's index, whether it is an element, the local part of its tag name
/// and its attributes by local name and value. The result depends on the
/// text alone.
#[verifier::external_body]
pub(crate) fn read_nodes(text: &str) -> (r: Result<Vec<XmlNode>, roxmltree::Error>)
    ensures
        match r {
            Ok(nodes) => xml_nodes(text@) == Some(nodes@),
            Err(_) => xml_nodes(text@) is None,
        },
{
    let doc = roxmltree::Document::parse(text)?;
    Ok(doc.descendants().map(|n| XmlNode {
        parent: n.parent().map(|p| p.id().get_usize()),
        is_element: n.is_element(),
        name: n.tag_name().name().to_string(),
        attributes: n.attributes().map(|a| XmlAttribute {
            name: a.name().to_string(),
            value: a.value().to_string(),
        }).collect(),
    }).collect())
}

/// The value of the first of `attrs` at or after index `i` that is named
/// `key`.
pub open spec fn attribute_from(
    attrs: Seq<XmlAttribute>,
    key: Seq<char>,
    i: int,
) -> Option<Seq<char>>
    decreases attrs.len() - i + 1,
{
    if i < 0 || i >= attrs.len() {
        None
    } else if attrs[i].name@ == key {
        Some(attrs[i].value@)
    } else {
        attribute_from(attrs, key, i + 1)
    }
}

/// Node `j` is a child of node `parent` and has the tag `tag`.
pub open spec fn is_child(nodes: Seq<XmlNode>, j: int, parent: usize, tag: Seq<char>) -> bool {
    nodes[j].parent == Some(parent) && nodes[j].name@ == tag
}

/// The children of `parent` with the tag `tag` among the first `n` nodes,
/// in document order.
pub open spec fn children_among(
    nodes: Seq<XmlNode>,
    parent: usize,
    tag: Seq<char>,
    n: int,
) -> Seq<usize>
    decreases n,
{
    if n <= 0 {
        Seq::empty()
    } else if is_child(nodes, n - 1, parent, tag) {
        children_among(nodes, parent, tag, n - 1).push((n - 1) as usize)
    } else {
        children_among(nodes, parent, tag, n - 1)
    }
}

/// The children of `parent` with the tag `tag`, in document order.
pub open spec fn children_of(nodes: Seq<XmlNode>, parent: usize, tag: Seq<char>) -> Seq<usize> {
    children_among(nodes, parent, tag, nodes.len() as int)
}

/// The first child of `parent` with the tag `tag`.
pub open spec fn first_child_of(
    nodes: Seq<XmlNode>,
    parent: usize,
    tag: Seq<char>,
) -> Option<usize> {
    if children_of(nodes, parent, tag).len() > 0 {
        Some(children_of(nodes, parent, tag)[0])
    } else {
        None
    }
}

/// The children with the tag `tag` of the first child of `parent` that has
/// the tag `section`; none where `parent` has no such child.
pub open spec fn entries_of(
    nodes: Seq<XmlNode>,
    parent: usize,
    section: Seq<char>,
    tag: Seq<char>,
) -> Seq<usize> {
    match first_child_of(nodes, parent, section) {
        Some(s) => children_of(nodes, s, tag),
        None => Seq::empty(),
    }
}

/// The first element among the first `n` nodes that is a child of the
/// document itself.
pub open spec fn root_among(nodes: Seq<XmlNode>, n: int) -> Option<usize>
    decreases n,
{
    if n <= 0 {
        None
    } else {
        match root_among(nodes, n - 1) {
            Some(r) => Some(r),
            None => if nodes[n - 1].parent == Some(0usize) && nodes[n - 1].is_element {
                Some((n - 1) as usize)
            } else {
                None
            },
        }
    }
}

impl XmlNode {
    /// The value of the first attribute named `key`.
    pub open spec fn attr(&self, key: Seq<char>) -> Option<Seq<char>> {
        attribute_from(self.attributes@, key, 0)
    }

    /// The value of the first attribute named `key`.
    pub fn attribute(&self, key: &str) -> (r: Option<String>)
        ensures
            match r {
                Some(v) => self.attr(key@) == Some(v@),
                None => self.attr(key@) is None,
            },
    {
        let mut i: usize = 0;
        while i < self.attributes.len()
            invariant
                i <= self.attributes.len(),
                self.attr(key@) == attribute_from(self.attributes@, key@, i as int),
            decreases self.attributes.len() - i,
        {
            if same(self.attributes[i].name.as_str(), key) {
                return Some(self.attributes[i].value.clone());
            }
            i += 1;
        }
        None
    }
}

impl XmlDocument {
    /// The children of `parent` with the tag `tag`, in document order.
    pub fn children(&self, parent: usize, tag: &str) -> (r: Vec<usize>)
        ensures
            r@ == children_of(self.nodes@, parent, tag@),
            forall|k: int| 0 <= k < r@.len() ==> #[trigger] r@[k] < self.nodes.len(),
    {
        let mut out: Vec<usize> = Vec::new();
        let mut i: usize = 0;
        while i < self.nodes.len()
            invariant
                i <= self.nodes.len(),
                out@ == children_among(self.nodes@, parent, tag@, i as int),
                forall|k: int| 0 <= k < out@.len() ==> #[trigger] out@[k] < self.nodes.len(),
            decreases self.nodes.len() - i,
        {
            let node = &self.nodes[i];
            let under = match node.parent {
                Some(p) => p == parent,
                None => false,
            };
            if under && same(node.name.as_str(), tag) {
                out.push(i);
            }
            i += 1;
        }
        out
    }

    /// The first child of `parent` with the tag `tag`.
    pub fn first_child(&self, parent: usize, tag: &str) -> (r: Option<usize>)
        ensures
            r == first_child_of(self.nodes@, parent, tag@),
            r matches Some(c) ==> c < self.nodes.len(),
    {
        let all = self.children(parent, tag);
        if all.len() > 0 {
            Some(all[0])
        } else {
            None
        }
    }

    /// The children with the tag `tag` of the first child of `parent` that
    /// has the tag `section`.
    pub fn entries(&self, parent: usize, section: &str, tag: &str) -> (r: Vec<usize>)
        ensures
            r@ == entries_of(self.nodes@, parent, section@, tag@),
            forall|k: int| 0 <= k < r@.len() ==> #[trigger] r@[k] < self.nodes.len(),
    {
        match self.first_child(parent, section) {
            Some(s) => self.children(s, tag),
            None => Vec::new(),
        }
    }

    /// The root element: the first element that is a child of the document
    /// itself.
    pub fn root_element(&self) -> (r: Option<usize>)
        ensures
            r == root_among(self.nodes@, self.nodes@.len() as int),
            r matches Some(c) ==> c < self.nodes.len(),
    {
        let mut i: usize = 0;
        while i < self.nodes.len()
            invariant
                i <= self.nodes.len(),
                root_among(self.nodes@, i as int) is None,
            decreases self.nodes.len() - i,
        {
            let node = &self.nodes[i];
            let top = match node.parent {
                Some(p) => p == 0,
                None => false,
            };
            if top && node.is_element {
                proof {
                    lemma_root_kept(self.nodes@, i + 1, self.nodes@.len() as int);
                }
                return Some(i);
            }
            i += 1;
        }
        None
    }
}

/// A root found among the first `n` nodes is the root among more of them.
pub proof fn lemma_root_kept(nodes: Seq<XmlNode>, n: int, m: int)
    requires
        n <= m,
        root_among(nodes, n) is Some,
    ensures
        root_among(nodes, m) == root_among(nodes, n),
    decreases m - n,
{
    if n < m {
        lemma_root_kept(nodes, n, m - 1);
    }
}

} // verus!
