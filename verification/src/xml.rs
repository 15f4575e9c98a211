//! XML documents, as a flat list of nodes.

use vstd::prelude::*;

use crate::text::same;

verus! {

/// One node of a document: an element, a text, a comment or the document itself.
#[derive(Debug)]
pub struct XmlNode {
    /// The position of the node around this one. Only the document has none.
    pub parent: Option<usize>,
    /// The local name of an element, empty for any other node.
    pub name: String,
    /// The text that an element begins with, or that a text or comment is.
    pub text: Option<String>,
}

/// What an [`XmlNode`] says.
pub ghost struct XmlView {
    pub parent: Option<usize>,
    pub name: Seq<char>,
    pub text: Option<Seq<char>>,
}

impl View for XmlNode {
    type V = XmlView;

    open spec fn view(&self) -> XmlView {
        XmlView { parent: self.parent, name: self.name@, text: self.text.deep_view() }
    }
}

impl DeepView for XmlNode {
    type V = XmlView;

    open spec fn deep_view(&self) -> XmlView {
        self@
    }
}

/// The nodes of the document that `roxmltree` reads from a text, in document order.
pub uninterp spec fn xml_nodes(text: Seq<char>) -> Option<Seq<XmlView>>;

/// `roxmltree::Document::parse`, with `descendants` to list the nodes, and of each node its
/// `parent`, `tag_name` and `text`. All of it is a function of the text; which texts are XML
/// is left unsaid. A node's `id` is its position in document order. Nested elements are read in
/// a loop, so a text of any depth is read or refused.
#[verifier::external_body]
pub(crate) fn parse_xml(text: &str) -> (nodes: Option<Vec<XmlNode>>)
    ensures
        nodes.deep_view() == xml_nodes(text@),
{
    let document = roxmltree::Document::parse(text).ok()?;
    Some(
        document.descendants().map(
            |node| XmlNode {
                parent: node.parent().map(|parent| parent.id().get_usize()),
                name: node.tag_name().name().to_string(),
                text: node.text().map(|text| text.to_string()),
            },
        ).collect(),
    )
}

/// Whether the node at `at` is an element of this name directly inside the node at `parent`.
pub open spec fn is_child(nodes: Seq<XmlView>, at: int, parent: int, name: Seq<char>) -> bool {
    nodes[at].parent is Some && nodes[at].parent->0 == parent && nodes[at].name == name
}

/// The first element of this name at or after `from`.
pub open spec fn first_named(nodes: Seq<XmlView>, name: Seq<char>, from: int) -> Option<int>
    decreases nodes.len() - from,
{
    if from >= nodes.len() {
        None
    } else if nodes[from].name == name {
        Some(from)
    } else {
        first_named(nodes, name, from + 1)
    }
}

/// The first element of this name, at or after `from`, directly inside the node at `parent`.
pub open spec fn first_child(
    nodes: Seq<XmlView>,
    parent: int,
    name: Seq<char>,
    from: int,
) -> Option<int>
    decreases nodes.len() - from,
{
    if from >= nodes.len() {
        None
    } else if is_child(nodes, from, parent, name) {
        Some(from)
    } else {
        first_child(nodes, parent, name, from + 1)
    }
}

/// The text of the first element of this name directly inside the node at `parent`.
pub open spec fn child_text(nodes: Seq<XmlView>, parent: int, name: Seq<char>) -> Option<Seq<char>> {
    match first_child(nodes, parent, name, 0) {
        Some(at) => nodes[at].text,
        None => None,
    }
}

/// Find the first element of this name.
pub fn find_named(nodes: &[XmlNode], name: &str) -> (at: Option<usize>)
    ensures
        match at {
            Some(at) => first_named(nodes.deep_view(), name@, 0) == Some(at as int) && at
                < nodes@.len(),
            None => first_named(nodes.deep_view(), name@, 0) is None,
        },
{
    let mut i: usize = 0;
    while i < nodes.len()
        invariant
            i <= nodes@.len(),
            first_named(nodes.deep_view(), name@, 0) == first_named(
                nodes.deep_view(),
                name@,
                i as int,
            ),
        decreases nodes@.len() - i,
    {
        assert(nodes.deep_view()[i as int] == nodes@[i as int]@);
        if same(nodes[i].name.as_str(), name) {
            return Some(i);
        }
        i += 1;
    }
    None
}

/// Whether the node at `at` is an element of this name directly inside the node at `parent`.
pub fn is_child_of(nodes: &[XmlNode], at: usize, parent: usize, name: &str) -> (r: bool)
    requires
        at < nodes@.len(),
    ensures
        r == is_child(nodes.deep_view(), at as int, parent as int, name@),
{
    assert(nodes.deep_view()[at as int] == nodes@[at as int]@);
    match nodes[at].parent {
        Some(around) => around == parent && same(nodes[at].name.as_str(), name),
        None => false,
    }
}

/// Find the first element of this name directly inside the node at `parent`.
pub fn find_child(nodes: &[XmlNode], parent: usize, name: &str) -> (at: Option<usize>)
    ensures
        match at {
            Some(at) => first_child(nodes.deep_view(), parent as int, name@, 0) == Some(at as int)
                && at < nodes@.len(),
            None => first_child(nodes.deep_view(), parent as int, name@, 0) is None,
        },
{
    let mut i: usize = 0;
    while i < nodes.len()
        invariant
            i <= nodes@.len(),
            first_child(nodes.deep_view(), parent as int, name@, 0) == first_child(
                nodes.deep_view(),
                parent as int,
                name@,
                i as int,
            ),
        decreases nodes@.len() - i,
    {
        if is_child_of(nodes, i, parent, name) {
            return Some(i);
        }
        i += 1;
    }
    None
}

/// The text of the first element of this name directly inside the node at `parent`.
pub fn text_of_child(nodes: &[XmlNode], parent: usize, name: &str) -> (text: Option<String>)
    ensures
        text.deep_view() == child_text(nodes.deep_view(), parent as int, name@),
{
    match find_child(nodes, parent, name) {
        Some(at) => {
            assert(nodes.deep_view()[at as int] == nodes@[at as int]@);
            match &nodes[at].text {
                Some(text) => Some(text.clone()),
                None => None,
            }
        },
        None => None,
    }
}

} // verus!
