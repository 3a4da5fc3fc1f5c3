//! The generic document tree: what the XML reader hands over and the XML
//! writer takes, as plain values.
use vstd::prelude::*;

verus! {

/// Declares `treexml::Element` with its public fields.
#[verifier::external_type_specification]
pub struct ExElement(treexml::Element);

broadcast use vstd::std_specs::vec::axiom_vec_decreases_to_view, vstd::seq::axiom_seq_index_decreases;

/// A node of a generic document: a tag name, attributes in their order,
/// child nodes in their order, and the text it holds, if any.
#[derive(Debug)]
pub struct Node {
    pub name: String,
    pub attributes: Vec<(String, String)>,
    pub children: Vec<Node>,
    pub text: Option<String>,
}

/// A parsed element as plain values: tag name, attributes by name, child
/// elements in their order, and the text it holds, if any.
pub struct ElementView {
    pub name: Seq<char>,
    pub attributes: Map<Seq<char>, Seq<char>>,
    pub children: Seq<ElementView>,
    pub text: Option<Seq<char>>,
}

/// The root element that reading `data` as an XML document gives, if any.
pub uninterp spec fn parsed_root(data: Seq<u8>) -> Option<ElementView>;

pub open spec fn text_view(text: Option<String>) -> Option<Seq<char>> {
    match text {
        Some(t) => Some(t@),
        None => None,
    }
}

/// The attribute map `m` holds exactly the entries of `a`.
pub open spec fn attributes_are(m: std::collections::HashMap<String, String>, a: Map<Seq<char>, Seq<char>>) -> bool {
    &&& forall|k: String| #[trigger] m@.contains_key(k) ==> a.contains_key(k@) && a[k@] == m@[k]@
    &&& forall|s: Seq<char>| #[trigger] a.contains_key(s) ==> exists|k: String| k@ == s && m@.contains_key(k)
}

/// The attributes of a list of pairs by name: for each name, the value of
/// the last pair that gives it.
pub open spec fn attribute_map_of(pairs: Seq<(String, String)>) -> Map<Seq<char>, Seq<char>>
    decreases pairs.len(),
{
    if pairs.len() == 0 {
        Map::empty()
    } else {
        attribute_map_of(pairs.drop_last()).insert(pairs.last().0@, pairs.last().1@)
    }
}

/// No two attributes of `pairs` have the same name.
pub open spec fn distinct_names(pairs: Seq<(String, String)>) -> bool {
    forall|i: int, j: int| 0 <= i < j < pairs.len() ==> pairs[i].0@ != pairs[j].0@
}

/// The element `e` is what the view `v` describes, all the way down.
pub open spec fn element_matches(e: treexml::Element, v: ElementView) -> bool
    decreases e,
{
    &&& e.name@ == v.name
    &&& text_view(e.text) == v.text
    &&& attributes_are(e.attributes, v.attributes)
    &&& e.children@.len() == v.children.len()
    &&& forall|i: int| 0 <= i < e.children@.len() ==> element_matches(#[trigger] e.children@[i], v.children[i])
}

/// The element `e` and the node `n` carry the same tag names, texts and
/// attributes, all the way down.
pub open spec fn element_mirrors(e: treexml::Element, n: Node) -> bool
    decreases e,
{
    &&& e.name@ == n.name@
    &&& e.text == n.text
    &&& attributes_are(e.attributes, attribute_map_of(n.attributes@))
    &&& e.children@.len() == n.children@.len()
    &&& forall|i: int| 0 <= i < e.children@.len() ==> element_mirrors(#[trigger] e.children@[i], n.children@[i])
}

/// No node of the tree `n` names an attribute twice.
pub open spec fn distinct_attributes(n: Node) -> bool
    decreases n,
{
    &&& distinct_names(n.attributes@)
    &&& forall|i: int| 0 <= i < n.children@.len() ==> distinct_attributes(#[trigger] n.children@[i])
}

/// Relies on `HashMap::into_iter` (through `collect`): each entry of the
/// map comes out once, so no name comes twice and the pairs hold exactly
/// the map's entries.
#[verifier::external_body]
fn attribute_pairs(map: std::collections::HashMap<String, String>) -> (r: Vec<(String, String)>)
    ensures
        distinct_names(r@),
        attributes_are(map, attribute_map_of(r@)),
{
    map.into_iter().collect()
}

/// Relies on `HashMap::extend`: each pair is inserted in turn, a later pair
/// replacing the value of an earlier one with the same name.
#[verifier::external_body]
fn attribute_map(pairs: &Vec<(String, String)>) -> (r: std::collections::HashMap<String, String>)
    ensures
        attributes_are(r, attribute_map_of(pairs@)),
{
    let mut map = std::collections::HashMap::new();
    map.extend(pairs.iter().cloned());
    map
}

/// Turns a parsed element into a node: the same tag name, text and
/// attributes (in the order the element's map hands them out, so no name
/// comes twice), and each child turned into a node in its turn.
pub fn node_of(element: treexml::Element) -> (node: Node)
    ensures
        element_mirrors(element, node),
        distinct_attributes(node),
    decreases element,
{
    let treexml::Element { prefix: _, name, attributes, children, text, cdata: _ } = element;
    let ghost kids = children@;
    assert(decreases_to!(element => element.children));
    let total: usize = children.len();
    let mut nodes: Vec<Node> = Vec::new();
    let mut rest = children;
    let mut i: usize = 0;
    while rest.len() > 0
        invariant
            nodes@.len() == i,
            kids == element.children@,
            kids.len() == total,
            i + rest@.len() == kids.len(),
            forall|k: int| 0 <= k < rest@.len() ==> rest@[k] == kids[i + k],
            forall|k: int| 0 <= k < i ==> element_mirrors(#[trigger] kids[k], nodes@[k]),
            forall|k: int| 0 <= k < i ==> distinct_attributes(#[trigger] nodes@[k]),
        decreases rest@.len(),
    {
        let child = rest.remove(0);
        assert(decreases_to!(element => kids[i as int]));
        nodes.push(node_of(child));
        i = i + 1;
    }
    Node { name, attributes: attribute_pairs(attributes), children: nodes, text }
}

/// Turns a node into an element for the writer: the same tag name and
/// text, the node's attributes put into the element's map, no prefix and
/// no CDATA, and each child turned into an element in its turn.
pub fn element_of(node: &Node) -> (element: treexml::Element)
    ensures
        element_mirrors(element, *node),
        element.prefix is None,
        element.cdata is None,
    decreases node,
{
    let attributes = attribute_map(&node.attributes);
    let mut children: Vec<treexml::Element> = Vec::new();
    let mut j: usize = 0;
    while j < node.children.len()
        invariant
            j <= node.children@.len(),
            children@.len() == j,
            forall|k: int| 0 <= k < j ==> element_mirrors(#[trigger] children@[k], node.children@[k]),
        decreases node.children@.len() - j,
    {
        assert(decreases_to!(node => node.children));
        assert(decreases_to!(node.children@ => node.children@[j as int]));
        children.push(element_of(&node.children[j]));
        j = j + 1;
    }
    let text = match &node.text {
        Some(t) => Some(t.clone()),
        None => None,
    };
    treexml::Element {
        prefix: None,
        name: node.name.clone(),
        attributes,
        children,
        text,
        cdata: None,
    }
}

/// Relies on `treexml::Document::parse`: reads an XML document and gives
/// its root element, or nothing where the bytes hold no document with a
/// root. What it reads depends on the bytes alone; on empty input the
/// underlying reader stops with "no root element".
#[verifier::external_body]
pub(crate) fn parse_document(data: &[u8]) -> (r: Option<treexml::Element>)
    ensures
        r is None <==> parsed_root(data@) is None,
        r is Some ==> element_matches(r->Some_0, parsed_root(data@)->Some_0),
        data@.len() == 0 ==> r is None,
{
    match treexml::Document::parse(data) {
        Ok(doc) => doc.root,
        Err(_) => None,
    }
}

/// Relies on `treexml::Document::write`: writes an XML declaration and the
/// document whose root is `root`. The writer fails only where its output
/// does or where its events come out of order; writing into a `Vec<u8>`
/// never fails and the element walk keeps the events in order, so the
/// result is always `Ok`. The error arm only converts the writer's error.
#[verifier::external_body]
pub(crate) fn write_document(root: treexml::Element) -> (r: Result<Vec<u8>, std::io::Error>)
    ensures
        r is Ok,
{
    let doc = treexml::Document { root: Some(root), ..treexml::Document::default() };
    let mut out: Vec<u8> = Vec::new();
    match doc.write(&mut out) {
        Ok(()) => Ok(out),
        Err(e) => Err(std::io::Error::new(std::io::ErrorKind::Other, e.to_string())),
    }
}

} // verus!
