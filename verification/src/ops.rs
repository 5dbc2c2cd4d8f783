//! Verified operations on the XML tree: child lookup and text extraction.

use vstd::prelude::*;
use vstd::string::StringExecFns;

use crate::engine::str_eq;
use crate::model::{
    child_named, elems_of, first_named, lemma_elems_of_app, lemma_first_named_app,
    lemma_elems_of_one, lemma_first_named_one, lemma_text_concat_app, lemma_text_concat_one, text_concat,
};
use crate::tree::{lemma_elem_view, ElemModel, XmlElement, XmlNode};

verus! {

impl XmlElement {
    /// The first child element with the given name, if any.
    pub fn get_child<'a>(&'a self, name: &str) -> (r: Option<&'a XmlElement>)
        ensures
            match r {
                Some(c) => child_named(self@, name@) == Option::Some(c@),
                None => child_named(self@, name@) is None,
            },
    {
        proof { lemma_elem_view(self); }
        let ghost cs = self@.children;
        let n = self.children.len();
        for i in 0..n
            invariant
                n == self.children.len(),
                cs == self@.children,
                first_named(elems_of(cs.take(i as int)), name@) is None,
        {
            proof {
                lemma_elem_view(self);
                assert(cs.take(i + 1) =~= cs.take(i as int) + seq![cs[i as int]]);
                lemma_elems_of_app(cs.take(i as int), seq![cs[i as int]]);
                assert(cs[i as int] == self.children@[i as int]@);
            }
            match &self.children[i] {
                XmlNode::Element(e) => {
                    proof {
                        lemma_elem_view(e);
                        lemma_elems_of_one(cs[i as int]);
                        assert(elems_of(seq![cs[i as int]]) =~= seq![e@]);
                        lemma_first_named_one(e@, name@);
                        lemma_first_named_app(
                            elems_of(cs.take(i as int)),
                            seq![e@],
                            name@,
                        );
                    }
                    if str_eq(e.name.as_str(), name) {
                        proof {
                            assert(cs =~= cs.take(i + 1) + cs.skip(i + 1));
                            lemma_elems_of_app(cs.take(i + 1), cs.skip(i + 1));
                            lemma_first_named_app(
                                elems_of(cs.take(i + 1)),
                                elems_of(cs.skip(i + 1)),
                                name@,
                            );
                        }
                        return Some(e);
                    }
                },
                _ => {
                    proof {
                        lemma_elems_of_one(cs[i as int]);
                        assert(elems_of(seq![cs[i as int]]) =~= Seq::<ElemModel>::empty());
                        lemma_first_named_app(
                            elems_of(cs.take(i as int)),
                            elems_of(seq![cs[i as int]]),
                            name@,
                        );
                        assert(elems_of(cs.take(i + 1)) =~= elems_of(cs.take(i as int)));
                    }
                },
            }
        }
        proof {
            lemma_elem_view(self);
            assert(cs.take(n as int) =~= cs);
        }
        None
    }

    /// The first child that is an element, skipping text and other nodes.
    pub fn first_child_element<'a>(&'a self) -> (r: Option<&'a XmlElement>)
        ensures
            match r {
                Some(c) => elems_of(self@.children).len() > 0 && elems_of(self@.children)[0]
                    == c@,
                None => elems_of(self@.children).len() == 0,
            },
    {
        proof { lemma_elem_view(self); }
        let ghost cs = self@.children;
        let n = self.children.len();
        for i in 0..n
            invariant
                n == self.children.len(),
                cs == self@.children,
                elems_of(cs.take(i as int)).len() == 0,
        {
            proof {
                lemma_elem_view(self);
                assert(cs.take(i + 1) =~= cs.take(i as int) + seq![cs[i as int]]);
                lemma_elems_of_app(cs.take(i as int), seq![cs[i as int]]);
                assert(cs[i as int] == self.children@[i as int]@);
            }
            match &self.children[i] {
                XmlNode::Element(e) => {
                    proof {
                        lemma_elems_of_one(cs[i as int]);
                        assert(elems_of(seq![cs[i as int]]) =~= seq![e@]);
                        assert(cs =~= cs.take(i + 1) + cs.skip(i + 1));
                        lemma_elems_of_app(cs.take(i + 1), cs.skip(i + 1));
                        assert(elems_of(cs)[0] == e@);
                    }
                    return Some(e);
                },
                _ => {
                    proof {
                        lemma_elems_of_one(cs[i as int]);
                        assert(elems_of(seq![cs[i as int]]) =~= Seq::<ElemModel>::empty());
                        assert(elems_of(cs.take(i + 1)) =~= elems_of(cs.take(i as int)));
                    }
                },
            }
        }
        proof {
            lemma_elem_view(self);
            assert(cs.take(n as int) =~= cs);
        }
        None
    }

    /// The text carried directly by this element: its text and CDATA
    /// children concatenated in order.
    pub fn text_content(&self) -> (r: String)
        ensures
            r@ == text_concat(self@.children),
    {
        proof { lemma_elem_view(self); }
        let ghost cs = self@.children;
        let mut out = String::new();
        let n = self.children.len();
        for i in 0..n
            invariant
                n == self.children.len(),
                cs == self@.children,
                out@ == text_concat(cs.take(i as int)),
        {
            proof {
                lemma_elem_view(self);
                assert(cs.take(i + 1) =~= cs.take(i as int) + seq![cs[i as int]]);
                lemma_text_concat_app(cs.take(i as int), seq![cs[i as int]]);
                assert(cs[i as int] == self.children@[i as int]@);
                assert(text_concat(seq![cs[i as int]].drop_first()) == Seq::<char>::empty());
            }
            match &self.children[i] {
                XmlNode::Text(t) => {
                    out.append(t.as_str());
                    proof {
                        lemma_text_concat_one(cs[i as int]);
                        assert(text_concat(seq![cs[i as int]]) =~= t@);
                    }
                },
                XmlNode::CData(t) => {
                    out.append(t.as_str());
                    proof {
                        lemma_text_concat_one(cs[i as int]);
                        assert(text_concat(seq![cs[i as int]]) =~= t@);
                    }
                },
                _ => {
                    proof {
                        lemma_text_concat_one(cs[i as int]);
                        assert(text_concat(seq![cs[i as int]]) =~= Seq::<char>::empty());
                        assert(out@ =~= text_concat(cs.take(i + 1)));
                    }
                },
            }
            proof {
                assert(out@ =~= text_concat(cs.take(i + 1)));
            }
        }
        proof {
            lemma_elem_view(self);
            assert(cs.take(n as int) =~= cs);
        }
        out
    }
}

} // verus!
