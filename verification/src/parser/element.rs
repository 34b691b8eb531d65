//! The markup syntax tree: elements with attributes and children, text nodes
//! with their embedded variable references, and the element-id allocator.

use vstd::prelude::*;

use crate::parser::attr::Attribute;
use crate::parser::attr::AttributeValue;
use crate::parser::attr::SpecAttribute;
use crate::parser::attr::SpecVariableRef;
use crate::parser::attr::VariableRef;

verus! {

broadcast use vstd::std_specs::vec::axiom_vec_index_decreases;

/// A node of the tree: an element or a run of text.
#[derive(Debug, PartialEq, Eq)]
pub enum Node {
    Element(Element),
    Text(TextElement),
}

/// A text node: its content and the `{type:name}` references found in it, in
/// order of occurrence.
#[derive(Debug, Clone, PartialEq, Eq)]
pub struct TextElement {
    pub content: Vec<char>,
    pub variable_refs: Vec<VariableRef>,
}

/// A sequential element id. Ids are drawn from an explicit counter owned by
/// the caller (the parser resets its own counter at construction), so parses
/// are self-contained and repeatable.
#[derive(Debug, Clone, Copy, PartialEq, Eq, Structural)]
pub struct ElementId(pub u64);

impl ElementId {
    /// Draws the next id from `counter`.
    pub fn next(counter: &mut u64) -> (r: ElementId)
        requires
            *old(counter) < u64::MAX,
        ensures
            r == ElementId(*old(counter)),
            *final(counter) == *old(counter) + 1,
    {
        let id = ElementId(*counter);
        *counter = *counter + 1;
        id
    }

    /// Resets `counter`, so that the next id is 0.
    pub fn reset(counter: &mut u64)
        ensures
            *final(counter) == 0,
    {
        *counter = 0;
    }
}

/// The role of an element, from its tag name; unrecognized names become
/// `Custom` keys for externally supplied sub-templates.
#[derive(Debug, Clone, PartialEq, Eq)]
pub enum ElementKind {
    Root,
    Box,
    VStack,
    HStack,
    Clip,
    List,
    Label,
    Button,
    Input,
    Image,
    Empty,
    Custom(Vec<char>),
}

pub enum SpecElementKind {
    Root,
    Box,
    VStack,
    HStack,
    Clip,
    List,
    Label,
    Button,
    Input,
    Image,
    Empty,
    Custom(Seq<char>),
}

impl View for ElementKind {
    type V = SpecElementKind;

    open spec fn view(&self) -> SpecElementKind {
        match self {
            ElementKind::Root => SpecElementKind::Root,
            ElementKind::Box => SpecElementKind::Box,
            ElementKind::VStack => SpecElementKind::VStack,
            ElementKind::HStack => SpecElementKind::HStack,
            ElementKind::Clip => SpecElementKind::Clip,
            ElementKind::List => SpecElementKind::List,
            ElementKind::Label => SpecElementKind::Label,
            ElementKind::Button => SpecElementKind::Button,
            ElementKind::Input => SpecElementKind::Input,
            ElementKind::Image => SpecElementKind::Image,
            ElementKind::Empty => SpecElementKind::Empty,
            ElementKind::Custom(name) => SpecElementKind::Custom(name@),
        }
    }
}

/// The tag-name table: the closed set of recognized roles, the empty name as
/// `Empty`, and everything else as `Custom` carrying the name.
pub open spec fn spec_element_kind(name: Seq<char>) -> SpecElementKind {
    if name == "root"@ {
        SpecElementKind::Root
    } else if name == "box"@ {
        SpecElementKind::Box
    } else if name == "vstack"@ {
        SpecElementKind::VStack
    } else if name == "hstack"@ {
        SpecElementKind::HStack
    } else if name == "clip"@ {
        SpecElementKind::Clip
    } else if name == "list"@ {
        SpecElementKind::List
    } else if name == "label"@ {
        SpecElementKind::Label
    } else if name == "button"@ {
        SpecElementKind::Button
    } else if name == "input"@ {
        SpecElementKind::Input
    } else if name == "image"@ {
        SpecElementKind::Image
    } else if name == Seq::<char>::empty() {
        SpecElementKind::Empty
    } else {
        SpecElementKind::Custom(name)
    }
}

/// An element: its id, role, attributes and children.
#[derive(Debug, PartialEq, Eq)]
pub struct Element {
    pub id: ElementId,
    pub kind: ElementKind,
    pub attributes: Vec<Attribute>,
    pub children: Vec<Node>,
}

pub enum SpecNode {
    Element(SpecElement),
    Text(SpecTextElement),
}

pub struct SpecTextElement {
    pub content: Seq<char>,
    pub variable_refs: Seq<SpecVariableRef>,
}

pub struct SpecElement {
    pub id: u64,
    pub kind: SpecElementKind,
    pub attributes: Seq<SpecAttribute>,
    pub children: Seq<SpecNode>,
}

impl View for TextElement {
    type V = SpecTextElement;

    open spec fn view(&self) -> SpecTextElement {
        SpecTextElement {
            content: self.content@,
            variable_refs: self.variable_refs@.map_values(|r: VariableRef| r@),
        }
    }
}

/// The mathematical value of a node.
pub open spec fn spec_node_view(n: Node) -> SpecNode
    decreases n,
{
    match n {
        Node::Element(e) => SpecNode::Element(spec_element_view(e)),
        Node::Text(t) => SpecNode::Text(t@),
    }
}

/// The mathematical value of an element.
pub open spec fn spec_element_view(e: Element) -> SpecElement
    decreases e,
    via spec_element_view_dec
{
    SpecElement {
        id: e.id.0,
        kind: e.kind@,
        attributes: e.attributes@.map_values(|a: Attribute| a@),
        children: Seq::new(
            e.children@.len(),
            |i: int|
                if 0 <= i < e.children@.len() {
                    spec_node_view(e.children@[i])
                } else {
                    SpecNode::Text(SpecTextElement { content: Seq::empty(), variable_refs: Seq::empty() })
                },
        ),
    }
}

#[via_fn]
proof fn spec_element_view_dec(e: Element) {
    assert forall|i: int| 0 <= i < e.children@.len() implies decreases_to!(e => e.children@[i]) by {
        assert(decreases_to!(e => e.children));
        assert(decreases_to!(e.children => e.children@));
        assert(decreases_to!(e.children@ => e.children@[i]));
    }
}

impl View for Node {
    type V = SpecNode;

    open spec fn view(&self) -> SpecNode {
        spec_node_view(*self)
    }
}

impl View for Element {
    type V = SpecElement;

    open spec fn view(&self) -> SpecElement {
        spec_element_view(*self)
    }
}

/// The element built from a tag name, as the parser constructs it: the role
/// from the tag-name table and the next id from the counter.
pub open spec fn spec_element(
    name: Seq<char>,
    attributes: Seq<SpecAttribute>,
    children: Seq<SpecNode>,
    id: u64,
) -> SpecElement {
    SpecElement { id, kind: spec_element_kind(name), attributes, children }
}

impl Element {
    /// Builds an element, drawing its id from `counter`.
    pub fn new(name: Vec<char>, attributes: Vec<Attribute>, children: Vec<Node>, counter: &mut u64)
        -> (r: Element)
        requires
            *old(counter) < u64::MAX,
        ensures
            *final(counter) == *old(counter) + 1,
            r@ == spec_element(
                name@,
                attributes@.map_values(|a: Attribute| a@),
                children@.map_values(|n: Node| n@),
                *old(counter),
            ),
    {
        let kind = if crate::text::chars_eq_str(name.as_slice(), "root") {
            ElementKind::Root
        } else if crate::text::chars_eq_str(name.as_slice(), "box") {
            ElementKind::Box
        } else if crate::text::chars_eq_str(name.as_slice(), "vstack") {
            ElementKind::VStack
        } else if crate::text::chars_eq_str(name.as_slice(), "hstack") {
            ElementKind::HStack
        } else if crate::text::chars_eq_str(name.as_slice(), "clip") {
            ElementKind::Clip
        } else if crate::text::chars_eq_str(name.as_slice(), "list") {
            ElementKind::List
        } else if crate::text::chars_eq_str(name.as_slice(), "label") {
            ElementKind::Label
        } else if crate::text::chars_eq_str(name.as_slice(), "button") {
            ElementKind::Button
        } else if crate::text::chars_eq_str(name.as_slice(), "input") {
            ElementKind::Input
        } else if crate::text::chars_eq_str(name.as_slice(), "image") {
            ElementKind::Image
        } else if name.len() == 0 {
            ElementKind::Empty
        } else {
            ElementKind::Custom(name)
        };
        proof {
            if name@.len() == 0 {
                assert(name@ =~= Seq::<char>::empty());
            }
        }
        let e = Element { id: ElementId::next(counter), kind, attributes, children };
        proof {
            assert(e@.kind == spec_element_kind(name@));
            assert(e@.children =~= e.children@.map_values(|n: Node| n@));
            assert(e@ == spec_element(
                name@,
                e.attributes@.map_values(|a: Attribute| a@),
                e.children@.map_values(|n: Node| n@),
                e.id.0,
            ));
        }
        e
    }

    /// The value of the first attribute named `name`, if any.
    pub fn get_attr(&self, name: &[char]) -> (r: Option<&AttributeValue>)
        ensures
            match r {
                Some(v) => exists|i: int|
                    0 <= i < self.attributes@.len() && self.attributes@[i]@.name == name@
                        && v@ == self.attributes@[i]@.value,
                None => forall|i: int|
                    0 <= i < self.attributes@.len() ==> #[trigger] self.attributes@[i]@.name
                        != name@,
            },
    {
        let n = self.attributes.len();
        for i in 0..n
            invariant
                n == self.attributes@.len(),
                forall|j: int|
                    0 <= j < i ==> #[trigger] self.attributes@[j]@.name != name@,
        {
            if slices_eq(self.attributes[i].name.as_slice(), name) {
                return Some(&self.attributes[i].value);
            }
        }
        None
    }
}

/// Whether two character slices hold the same text.
pub fn slices_eq(a: &[char], b: &[char]) -> (r: bool)
    ensures
        r == (a@ == b@),
{
    if a.len() != b.len() {
        return false;
    }
    let n = a.len();
    for i in 0..n
        invariant
            n == a@.len(),
            n == b@.len(),
            forall|j: int| 0 <= j < i ==> a@[j] == b@[j],
    {
        if a[i] != b[i] {
            return false;
        }
    }
    proof {
        assert(a@ =~= b@);
    }
    true
}

} // verus!
