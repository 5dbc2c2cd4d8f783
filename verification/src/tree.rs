//! The XML tree that the envelope builder and parser work on, and its
//! mathematical model.

use vstd::prelude::*;

verus! {

broadcast use vstd::std_specs::vec::axiom_vec_decreases_to_view, vstd::seq::axiom_seq_index_decreases;

/// An XML element: a name, an optional prefix, ordered attributes,
/// namespace bindings (prefix to URI), and ordered children.
pub struct XmlElement {
    pub name: String,
    pub prefix: Option<String>,
    pub attributes: Vec<(String, String)>,
    pub namespaces: Vec<(String, String)>,
    pub children: Vec<XmlNode>,
}

/// A child of an element: a nested element, or character data.
pub enum XmlNode {
    Element(XmlElement),
    Text(String),
    Comment(String),
    CData(String),
    ProcessingInstruction(String, Option<String>),
}

/// The mathematical model of an element.
#[verifier::ext_equal]
pub ghost struct ElemModel {
    pub name: Seq<char>,
    pub prefix: Option<Seq<char>>,
    pub attributes: Seq<(Seq<char>, Seq<char>)>,
    pub namespaces: Seq<(Seq<char>, Seq<char>)>,
    pub children: Seq<NodeModel>,
}

/// The mathematical model of a child node.
#[verifier::ext_equal]
pub ghost enum NodeModel {
    Element(ElemModel),
    Text(Seq<char>),
    Comment(Seq<char>),
    CData(Seq<char>),
    ProcessingInstruction(Seq<char>, Option<Seq<char>>),
}

pub open spec fn pairs_view(v: Seq<(String, String)>) -> Seq<(Seq<char>, Seq<char>)> {
    Seq::new(v.len(), |i: int| (v[i].0@, v[i].1@))
}

pub open spec fn opt_str_view(o: Option<String>) -> Option<Seq<char>> {
    match o {
        Option::Some(s) => Option::Some(s@),
        Option::None => Option::None,
    }
}

impl View for XmlElement {
    type V = ElemModel;

    open spec fn view(&self) -> ElemModel
        decreases self,
    {
        ElemModel {
            name: self.name@,
            prefix: opt_str_view(self.prefix),
            attributes: pairs_view(self.attributes@),
            namespaces: pairs_view(self.namespaces@),
            children: Seq::new(
                self.children@.len(),
                |i: int|
                    if 0 <= i < self.children@.len() {
                        self.children@[i]@
                    } else {
                        NodeModel::Text(Seq::empty())
                    },
            ),
        }
    }
}

/// The children of an element's model are the models of its children.
pub proof fn lemma_elem_view(e: &XmlElement)
    ensures
        e@.name == e.name@,
        e@.prefix == opt_str_view(e.prefix),
        e@.attributes == pairs_view(e.attributes@),
        e@.namespaces == pairs_view(e.namespaces@),
        e@.children.len() == e.children@.len(),
        forall|i: int| 0 <= i < e.children@.len() ==> e@.children[i] == #[trigger] e.children@[i]@,
{
    reveal_with_fuel(<XmlElement as View>::view, 2);
}

impl View for XmlNode {
    type V = NodeModel;

    open spec fn view(&self) -> NodeModel
        decreases self,
    {
        match self {
            XmlNode::Element(e) => NodeModel::Element(e@),
            XmlNode::Text(t) => NodeModel::Text(t@),
            XmlNode::Comment(c) => NodeModel::Comment(c@),
            XmlNode::CData(c) => NodeModel::CData(c@),
            XmlNode::ProcessingInstruction(n, d) => NodeModel::ProcessingInstruction(
                n@,
                opt_str_view(*d),
            ),
        }
    }
}

} // verus!
