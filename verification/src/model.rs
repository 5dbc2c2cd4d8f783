//! Spec-level functions over the tree model: element lookup, the canonical
//! form that survives a serialize/parse round trip, and the side conditions
//! under which that round trip is faithful.

use vstd::prelude::*;

use crate::tree::{ElemModel, NodeModel};

verus! {

/// The elements among a sequence of child nodes, in order.
pub open spec fn elems_of(cs: Seq<NodeModel>) -> Seq<ElemModel>
    decreases cs.len(),
{
    if cs.len() == 0 {
        Seq::empty()
    } else {
        match cs[0] {
            NodeModel::Element(e) => seq![e] + elems_of(cs.drop_first()),
            _ => elems_of(cs.drop_first()),
        }
    }
}

/// The first element with the given name, if any.
pub open spec fn first_named(es: Seq<ElemModel>, name: Seq<char>) -> Option<ElemModel>
    decreases es.len(),
{
    if es.len() == 0 {
        Option::None
    } else if es[0].name == name {
        Option::Some(es[0])
    } else {
        first_named(es.drop_first(), name)
    }
}

/// The first element child of `e` with the given name: what a child lookup
/// on the tree finds.
pub open spec fn child_named(e: ElemModel, name: Seq<char>) -> Option<ElemModel> {
    first_named(elems_of(e.children), name)
}

pub open spec fn is_ws_char(c: char) -> bool {
    c == ' ' || c == '\t' || c == '\n' || c == '\r'
}

pub open spec fn all_ws(t: Seq<char>) -> bool {
    forall|i: int| 0 <= i < t.len() ==> is_ws_char(#[trigger] t[i])
}

/// Merges adjacent text nodes and then drops whitespace-only text, the way
/// wire transport through an XML document does.
pub open spec fn norm_children(cs: Seq<NodeModel>) -> Seq<NodeModel>
    decreases cs.len(),
{
    if cs.len() == 0 {
        Seq::empty()
    } else {
        match cs[0] {
            NodeModel::Text(t) => {
                if cs.len() >= 2 && (cs[1] matches NodeModel::Text(_)) {
                    norm_children(
                        seq![NodeModel::Text(t + text_of_node(cs[1]))] + cs.skip(2),
                    )
                } else if all_ws(t) {
                    norm_children(cs.drop_first())
                } else {
                    seq![NodeModel::Text(t)] + norm_children(cs.drop_first())
                }
            },
            n => seq![n] + norm_children(cs.drop_first()),
        }
    }
}

pub open spec fn text_of_node(n: NodeModel) -> Seq<char> {
    match n {
        NodeModel::Text(t) => t,
        _ => Seq::empty(),
    }
}

/// The text carried directly by a sequence of child nodes: the contents of
/// its text and CDATA children, in order.
pub open spec fn text_concat(cs: Seq<NodeModel>) -> Seq<char>
    decreases cs.len(),
{
    if cs.len() == 0 {
        Seq::empty()
    } else {
        (match cs[0] {
            NodeModel::Text(t) => t,
            NodeModel::CData(t) => t,
            _ => Seq::empty(),
        }) + text_concat(cs.drop_first())
    }
}

pub proof fn lemma_elems_of_app(a: Seq<NodeModel>, b: Seq<NodeModel>)
    ensures
        elems_of(a + b) == elems_of(a) + elems_of(b),
    decreases a.len(),
{
    if a.len() == 0 {
        assert(a + b =~= b);
        assert(elems_of(a) + elems_of(b) =~= elems_of(b));
    } else {
        assert((a + b).drop_first() =~= a.drop_first() + b);
        lemma_elems_of_app(a.drop_first(), b);
        assert((a + b)[0] == a[0]);
        match a[0] {
            NodeModel::Element(e) => {
                assert(elems_of(a + b) =~= elems_of(a) + elems_of(b));
            },
            _ => {},
        }
    }
}

pub proof fn lemma_elems_of_one(n: NodeModel)
    ensures
        elems_of(seq![n]) == (match n {
            NodeModel::Element(e) => seq![e],
            _ => Seq::<ElemModel>::empty(),
        }),
{
    reveal_with_fuel(elems_of, 2);
    assert(seq![n].drop_first() =~= Seq::<NodeModel>::empty());
    match n {
        NodeModel::Element(e) => {
            assert(elems_of(seq![n]) =~= seq![e]);
        },
        _ => {
            assert(elems_of(seq![n]) =~= Seq::<ElemModel>::empty());
        },
    }
}

pub proof fn lemma_text_concat_one(n: NodeModel)
    ensures
        text_concat(seq![n]) == (match n {
            NodeModel::Text(t) => t,
            NodeModel::CData(t) => t,
            _ => Seq::<char>::empty(),
        }),
{
    reveal_with_fuel(text_concat, 2);
    assert(seq![n].drop_first() =~= Seq::<NodeModel>::empty());
    match n {
        NodeModel::Text(t) => {
            assert(text_concat(seq![n]) =~= t);
        },
        NodeModel::CData(t) => {
            assert(text_concat(seq![n]) =~= t);
        },
        _ => {
            assert(text_concat(seq![n]) =~= Seq::<char>::empty());
        },
    }
}

pub proof fn lemma_first_named_one(e: ElemModel, n: Seq<char>)
    ensures
        first_named(seq![e], n) == (if e.name == n {
            Option::Some(e)
        } else {
            Option::<ElemModel>::None
        }),
{
    reveal_with_fuel(first_named, 2);
    assert(seq![e].drop_first() =~= Seq::<ElemModel>::empty());
}

pub proof fn lemma_first_named_app(a: Seq<ElemModel>, b: Seq<ElemModel>, n: Seq<char>)
    ensures
        first_named(a + b, n) == (if first_named(a, n) is Some {
            first_named(a, n)
        } else {
            first_named(b, n)
        }),
    decreases a.len(),
{
    if a.len() == 0 {
        assert(a + b =~= b);
    } else {
        assert((a + b)[0] == a[0]);
        assert((a + b).drop_first() =~= a.drop_first() + b);
        lemma_first_named_app(a.drop_first(), b, n);
    }
}

pub proof fn lemma_text_concat_app(a: Seq<NodeModel>, b: Seq<NodeModel>)
    ensures
        text_concat(a + b) == text_concat(a) + text_concat(b),
    decreases a.len(),
{
    if a.len() == 0 {
        assert(a + b =~= b);
        assert(text_concat(a) + text_concat(b) =~= text_concat(b));
    } else {
        assert((a + b)[0] == a[0]);
        assert((a + b).drop_first() =~= a.drop_first() + b);
        lemma_text_concat_app(a.drop_first(), b);
        assert(text_concat(a + b) =~= text_concat(a) + text_concat(b));
    }
}

pub open spec fn has_colon(k: Seq<char>) -> bool {
    exists|i: int| 0 <= i < k.len() && k[i] == ':'
}

/// The part of an attribute key after its first colon.
pub open spec fn tail_after_colon(k: Seq<char>) -> Seq<char>
    decreases k.len(),
{
    if k.len() == 0 {
        k
    } else if k[0] == ':' {
        k.drop_first()
    } else {
        tail_after_colon(k.drop_first())
    }
}

/// The part of an attribute key before its first colon.
pub open spec fn before_colon(k: Seq<char>) -> Seq<char>
    decreases k.len(),
{
    if k.len() == 0 || k[0] == ':' {
        Seq::empty()
    } else {
        seq![k[0]] + before_colon(k.drop_first())
    }
}

/// The local part of an attribute key: an XML parser records a prefixed
/// attribute under its local name alone.
pub open spec fn local_part(k: Seq<char>) -> Seq<char> {
    if has_colon(k) {
        tail_after_colon(k)
    } else {
        k
    }
}

pub open spec fn strip_attrs(attrs: Seq<(Seq<char>, Seq<char>)>) -> Seq<(Seq<char>, Seq<char>)> {
    Seq::new(attrs.len(), |i: int| (local_part(attrs[i].0), attrs[i].1))
}

pub open spec fn node_canon(n: NodeModel) -> NodeModel
    decreases n,
{
    match n {
        NodeModel::Element(e) => NodeModel::Element(canon(e)),
        other => other,
    }
}

/// Each node of the sequence in canonical form.
pub open spec fn kids_canon(cs: Seq<NodeModel>) -> Seq<NodeModel>
    decreases cs,
{
    Seq::new(
        cs.len(),
        |i: int|
            if 0 <= i < cs.len() {
                node_canon(cs[i])
            } else {
                NodeModel::Text(Seq::empty())
            },
    )
}

/// Each element of the sequence in canonical form.
pub open spec fn elems_canon(es: Seq<ElemModel>) -> Seq<ElemModel> {
    Seq::new(
        es.len(),
        |i: int|
            if 0 <= i < es.len() {
                canon(es[i])
            } else {
                es[i]
            },
    )
}

/// The canonical form of an element: what is preserved when the element is
/// written out as XML and read back.  Attribute keys lose their prefixes,
/// namespace scoping is not compared, adjacent text runs merge, and
/// whitespace-only text disappears.
pub open spec fn canon(e: ElemModel) -> ElemModel
    decreases e,
{
    ElemModel {
        name: e.name,
        prefix: e.prefix,
        attributes: strip_attrs(e.attributes),
        namespaces: Seq::empty(),
        children: norm_children(kids_canon(e.children)),
    }
}

/// Normalization never loses or reorders elements: only text nodes merge
/// or disappear.
pub proof fn lemma_norm_elems(cs: Seq<NodeModel>)
    ensures
        elems_of(norm_children(cs)) == elems_of(cs),
    decreases cs.len(),
{
    if cs.len() == 0 {
        assert(norm_children(cs) =~= Seq::<NodeModel>::empty());
    } else {
        match cs[0] {
            NodeModel::Text(t) => {
                if cs.len() >= 2 && (cs[1] matches NodeModel::Text(_)) {
                    let merged = seq![NodeModel::Text(t + text_of_node(cs[1]))] + cs.skip(2);
                    assert(merged.len() == cs.len() - 1);
                    lemma_norm_elems(merged);
                    lemma_elems_of_app(
                        seq![NodeModel::Text(t + text_of_node(cs[1]))],
                        cs.skip(2),
                    );
                    lemma_elems_of_one(NodeModel::Text(t + text_of_node(cs[1])));
                    assert(cs.drop_first().drop_first() =~= cs.skip(2));
                    assert(elems_of(cs) == elems_of(cs.drop_first()));
                    assert(elems_of(cs.drop_first()) == elems_of(cs.skip(2)));
                    assert(elems_of(norm_children(cs)) =~= elems_of(cs));
                } else if all_ws(t) {
                    lemma_norm_elems(cs.drop_first());
                } else {
                    lemma_norm_elems(cs.drop_first());
                    lemma_elems_of_app(
                        seq![NodeModel::Text(t)],
                        norm_children(cs.drop_first()),
                    );
                    lemma_elems_of_one(NodeModel::Text(t));
                    assert(elems_of(norm_children(cs)) =~= elems_of(cs));
                }
            },
            n => {
                lemma_norm_elems(cs.drop_first());
                lemma_elems_of_app(seq![n], norm_children(cs.drop_first()));
                lemma_elems_of_one(n);
                assert(elems_of(norm_children(cs)) =~= elems_of(cs));
            },
        }
    }
}

/// Taking each node to canonical form takes each of its elements to
/// canonical form.
pub proof fn lemma_kids_canon_elems(cs: Seq<NodeModel>)
    ensures
        elems_of(kids_canon(cs)) == elems_canon(elems_of(cs)),
    decreases cs.len(),
{
    if cs.len() == 0 {
        assert(kids_canon(cs) =~= Seq::<NodeModel>::empty());
        assert(elems_canon(elems_of(cs)) =~= Seq::<ElemModel>::empty());
    } else {
        lemma_kids_canon_elems(cs.drop_first());
        assert(kids_canon(cs.drop_first()) =~= kids_canon(cs).drop_first());
        assert(kids_canon(cs) =~= seq![node_canon(cs[0])] + kids_canon(cs.drop_first()));
        lemma_elems_of_app(seq![node_canon(cs[0])], kids_canon(cs.drop_first()));
        lemma_elems_of_one(node_canon(cs[0]));
        match cs[0] {
            NodeModel::Element(e) => {
                assert(elems_of(cs) == seq![e] + elems_of(cs.drop_first()));
                assert(elems_canon(seq![e] + elems_of(cs.drop_first())) =~= seq![canon(e)]
                    + elems_canon(elems_of(cs.drop_first())));
                assert(elems_of(kids_canon(cs)) =~= elems_canon(elems_of(cs)));
            },
            _ => {
                assert(elems_of(kids_canon(cs)) =~= elems_canon(elems_of(cs)));
            },
        }
    }
}

/// A single element child passes through normalization unchanged.
pub proof fn lemma_norm_single_elem(e: ElemModel)
    ensures
        norm_children(seq![NodeModel::Element(e)]) == seq![NodeModel::Element(e)],
{
    reveal_with_fuel(norm_children, 2);
    assert(seq![NodeModel::Element(e)].drop_first() =~= Seq::<NodeModel>::empty());
    assert(norm_children(seq![NodeModel::Element(e)]) =~= seq![NodeModel::Element(e)]);
}

/// A character that cannot open, close, split or quote markup, so a name
/// made of such characters is read back letter for letter.
pub open spec fn plain_name_char(c: char) -> bool {
    !is_ws_char(c) && c != ':' && c != '=' && c != '"' && c != '\'' && c != '<' && c != '>'
        && c != '/' && c != '&' && c != '?'
}

pub open spec fn plain_name(s: Seq<char>) -> bool {
    s.len() > 0 && forall|i: int| 0 <= i < s.len() ==> plain_name_char(#[trigger] s[i])
}

/// An attribute key that survives the wire: at most one colon, plain parts,
/// and not a namespace declaration.
pub open spec fn key_ok(k: Seq<char>) -> bool {
    if has_colon(k) {
        plain_name(before_colon(k)) && plain_name(tail_after_colon(k)) && before_colon(k)
            != "xmlns"@
    } else {
        plain_name(k) && k != "xmlns"@
    }
}

pub open spec fn no_char(t: Seq<char>, c: char) -> bool {
    forall|i: int| 0 <= i < t.len() ==> #[trigger] t[i] != c
}

/// A comment that the XML writer carries letter for letter: it must
/// already be padded with whitespace (the writer pads unpadded comments)
/// and hold no double dash.
pub open spec fn comment_ok(t: Seq<char>) -> bool {
    &&& no_char(t, '\r')
    &&& forall|i: int| 0 <= i < t.len() - 1 ==> !(#[trigger] t[i] == '-' && t[i + 1] == '-')
    &&& t.len() > 0
    &&& is_ws_char(t[0])
    &&& is_ws_char(t[t.len() - 1])
}

pub open spec fn cdata_ok(t: Seq<char>) -> bool {
    &&& no_char(t, '\r')
    &&& forall|i: int|
        0 <= i < t.len() - 2 ==> !(#[trigger] t[i] == ']' && t[i + 1] == ']' && t[i + 2] == '>')
}

/// A namespace prefix that the writer can declare without altering the
/// document's structure: empty (the default namespace), or a plain name.
/// The writer declares such a binding as a single, unambiguous attribute;
/// it never declares the reserved `xml` and `xmlns` prefixes at all, and
/// both of those are plain names too.
pub open spec fn ns_prefix_ok(p: Seq<char>) -> bool {
    p.len() == 0 || plain_name(p)
}

/// The shape every tree coming out of the XML reader has: names, prefixes
/// and attribute keys are plain (the reader admits no whitespace, markup
/// delimiter or stray colon in a name), attribute keys are distinct,
/// namespace bindings carry empty or plain prefixes, and CDATA content
/// holds no carriage return and no terminator.
pub open spec fn parsed_form(e: ElemModel) -> bool
    decreases e,
{
    &&& plain_name(e.name)
    &&& (e.prefix matches Option::Some(p) ==> plain_name(p))
    &&& (forall|i: int| 0 <= i < e.attributes.len() ==> plain_name((#[trigger] e.attributes[i]).0))
    &&& (forall|i: int| 0 <= i < e.namespaces.len() ==> ns_prefix_ok((#[trigger] e.namespaces[i]).0))
    &&& (forall|i: int, j: int|
        0 <= i < j < e.attributes.len() ==> (#[trigger] e.attributes[i]).0 != (
        #[trigger] e.attributes[j]).0)
    &&& (forall|i: int| 0 <= i < e.children.len() ==> node_parsed_form(#[trigger] e.children[i]))
}

pub open spec fn node_parsed_form(n: NodeModel) -> bool
    decreases n,
{
    match n {
        NodeModel::Element(e) => parsed_form(e),
        NodeModel::CData(c) => cdata_ok(c),
        _ => true,
    }
}

/// The content-side conditions that `parsed_form` does not give: they
/// depend on what the document said, not on how the reader works.  Text
/// may hold a carriage return through a character reference, comments come
/// back unpadded, processing instructions are not carried, a tab in an
/// attribute value would be normalized away, and an attribute whose local
/// name is `xmlns` would turn into a namespace declaration.
pub open spec fn content_clean(e: ElemModel) -> bool
    decreases e,
{
    &&& (forall|i: int|
        0 <= i < e.attributes.len() ==> no_char((#[trigger] e.attributes[i]).1, '\t')
            && e.attributes[i].0 != "xmlns"@)
    &&& (forall|i: int| 0 <= i < e.children.len() ==> node_content_clean(#[trigger] e.children[i]))
}

pub open spec fn node_content_clean(n: NodeModel) -> bool
    decreases n,
{
    match n {
        NodeModel::Element(e) => content_clean(e),
        NodeModel::Text(t) => no_char(t, '\r'),
        NodeModel::Comment(c) => comment_ok(c),
        NodeModel::CData(_) => true,
        NodeModel::ProcessingInstruction(_, _) => false,
    }
}

/// The element writes out to a document that, read back, yields its
/// canonical form again.  Carriage returns in text and tabs in attribute
/// values are excluded because an XML reader normalizes them; processing
/// instructions are not carried; namespace prefixes must be empty or
/// plain, since the writer declares them without validation.  A tree read
/// from a document falls outside this predicate only through content
/// entered by character reference, an unpadded comment, or a processing
/// instruction; rewriting such a tree changes it exactly by the reader's
/// normalizations, which this model leaves unstated.
pub open spec fn round_trippable(e: ElemModel) -> bool
    decreases e,
{
    &&& plain_name(e.name)
    &&& (e.prefix matches Option::Some(p) ==> plain_name(p))
    &&& (forall|i: int| 0 <= i < e.namespaces.len() ==> ns_prefix_ok((#[trigger] e.namespaces[i]).0))
    &&& (forall|i: int|
        0 <= i < e.attributes.len() ==> key_ok(#[trigger] e.attributes[i].0) && no_char(
            e.attributes[i].1,
            '\t',
        ))
    &&& (forall|i: int, j: int|
        0 <= i < j < e.attributes.len() ==> local_part(#[trigger] e.attributes[i].0)
            != local_part(#[trigger] e.attributes[j].0))
    &&& (forall|i: int|
        0 <= i < e.children.len() ==> node_round_trippable(#[trigger] e.children[i]))
}

pub open spec fn node_round_trippable(n: NodeModel) -> bool
    decreases n,
{
    match n {
        NodeModel::Element(e) => round_trippable(e),
        NodeModel::Text(t) => no_char(t, '\r'),
        NodeModel::Comment(c) => comment_ok(c),
        NodeModel::CData(c) => cdata_ok(c),
        NodeModel::ProcessingInstruction(_, _) => false,
    }
}

/// A reader-shaped tree whose content is clean is wire-faithful: the
/// name-side conditions of `round_trippable` come from `parsed_form`, the
/// content-side ones from `content_clean`.
pub proof fn lemma_parsed_clean_round_trippable(e: ElemModel)
    requires
        parsed_form(e),
        content_clean(e),
    ensures
        round_trippable(e),
    decreases e,
{
    assert forall|i: int| 0 <= i < e.attributes.len() implies key_ok(
        (#[trigger] e.attributes[i]).0,
    ) && no_char(e.attributes[i].1, '\t') by {
        let k = e.attributes[i].0;
        assert(!has_colon(k));
    }
    assert forall|i: int, j: int|
        0 <= i < j < e.attributes.len() implies local_part(#[trigger] e.attributes[i].0)
        != local_part(#[trigger] e.attributes[j].0) by {
        assert(!has_colon(e.attributes[i].0));
        assert(!has_colon(e.attributes[j].0));
    }
    assert forall|i: int| 0 <= i < e.children.len() implies node_round_trippable(
        #[trigger] e.children[i],
    ) by {
        match e.children[i] {
            NodeModel::Element(c) => {
                lemma_parsed_clean_round_trippable(c);
            },
            _ => {},
        }
    }
}

} // verus!
