use vstd::prelude::*;

use crate::arena::ElementId;

verus! {

/// A static attribute written into a template.
#[derive(Clone, Debug, PartialEq, Eq)]
pub struct TemplateAttribute {
    pub name: String,
    pub value: String,
    pub namespace: Option<String>,
    pub volatile: bool,
}

/// The static node tree of a template.
#[derive(Debug)]
pub enum TemplateNode {
    Element {
        tag: String,
        namespace: Option<String>,
        attrs: Vec<TemplateAttribute>,
        children: Vec<TemplateNode>,
    },
    Text(String),
    DynamicText(usize),
    Dynamic(usize),
}

/// The compile-time shape of a subtree and the paths of its dynamic slots.
#[derive(Debug)]
pub struct Template {
    /// Stable key used for shape equality.
    pub id: String,
    pub root: TemplateNode,
    /// One path per dynamic node slot.
    pub node_pathways: Vec<Vec<u8>>,
    /// One path per dynamic attribute slot.
    pub attr_pathways: Vec<Vec<u8>>,
}

/// A dynamic attribute value.
#[derive(Clone, Debug, PartialEq, Eq)]
pub struct Attribute {
    pub name: String,
    pub value: String,
    pub namespace: Option<String>,
}

/// The attributes of one attribute slot, and the element that carries them.
#[derive(Clone, Debug, PartialEq, Eq)]
pub struct AttributeLocation {
    pub mounted_element: ElementId,
    pub attrs: Vec<Attribute>,
}

/// The value of one dynamic node slot.
#[derive(Debug)]
pub enum DynamicNode<'a> {
    Component { name: String },
    Text { value: String, id: ElementId },
    Fragment { children: Vec<VTemplate<'a>> },
}

/// One runtime occurrence of a template.
#[derive(Debug)]
pub struct VTemplate<'a> {
    pub node_id: ElementId,
    pub template: &'a Template,
    pub dynamic_nodes: Vec<DynamicNode<'a>>,
    pub dynamic_attrs: Vec<AttributeLocation>,
}

/// The text held by a text slot.
pub open spec fn text_of(n: DynamicNode) -> Seq<char> {
    match n {
        DynamicNode::Text { value, .. } => value@,
        _ => Seq::empty(),
    }
}

} // verus!
