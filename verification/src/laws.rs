//! The laws the envelope transforms obey, stated over the models that the
//! contracts of `soap` and `unsoap` speak of.

use vstd::prelude::*;

use crate::engine::spec_parse;
use crate::envelope::{addr_header, body_of, envelope_of, header_entries, header_of, unsoap_post, Error};
use crate::model::{
    before_colon, has_colon, key_ok, no_char, node_round_trippable, plain_name, round_trippable,
    tail_after_colon,
    canon, child_named, elems_canon, elems_of, kids_canon, lemma_first_named_one,
    lemma_kids_canon_elems, lemma_norm_elems, lemma_norm_single_elem, lemma_elems_of_one,
};
use crate::tree::{ElemModel, NodeModel};

verus! {

/// With no token, no address and no action, the envelope carries no
/// `Header` element at all: its only child is the `Body`.
pub proof fn lemma_no_optional_headers(app: ElemModel)
    ensures
        envelope_of(app, Option::None, Option::None, Option::None).children == seq![
            NodeModel::Element(body_of(app)),
        ],
        child_named(
            envelope_of(app, Option::None, Option::None, Option::None),
            "Header"@,
        ) is None,
{
    let env = envelope_of(app, Option::None, Option::None, Option::None);
    assert(header_entries(Option::None, Option::None, Option::None) =~= Seq::<
        NodeModel,
    >::empty());
    assert(env.children =~= seq![NodeModel::Element(body_of(app))]);
    lemma_elems_of_one(NodeModel::Element(body_of(app)));
    assert(elems_of(env.children) == seq![body_of(app)]);
    lemma_first_named_one(body_of(app), "Header"@);
    reveal_strlit("Body");
    reveal_strlit("Header");
    assert("Body"@.len() == 4);
    assert("Header"@.len() == 6);
    assert(elems_of(env.children) =~= seq![body_of(app)]);
}

/// With a token, an address and an action all present, the envelope's
/// first child is a `Header` with exactly three entries, in order: the
/// token element, then `To`, then `Action`; both addressing entries carry
/// the attribute `s:mustUnderstand="true"` and the given text verbatim.
/// The `Body` still comes last.
pub proof fn lemma_header_composition(
    app: ElemModel,
    token: ElemModel,
    to: Seq<char>,
    action: Seq<char>,
)
    ensures
        ({
            let env = envelope_of(
                app,
                Option::Some(token),
                Option::Some(to),
                Option::Some(action),
            );
            let entries = header_entries(
                Option::Some(token),
                Option::Some(to),
                Option::Some(action),
            );
            &&& env.children.len() == 2
            &&& env.children[0] == NodeModel::Element(header_of(entries))
            &&& env.children[1] == NodeModel::Element(body_of(app))
            &&& entries.len() == 3
            &&& entries[0] == NodeModel::Element(token)
            &&& entries[1] == NodeModel::Element(addr_header("To"@, to))
            &&& entries[2] == NodeModel::Element(addr_header("Action"@, action))
            &&& addr_header("To"@, to).attributes == seq![("s:mustUnderstand"@, "true"@)]
            &&& addr_header("To"@, to).children == seq![NodeModel::Text(to)]
            &&& addr_header("Action"@, action).attributes == seq![
                ("s:mustUnderstand"@, "true"@),
            ]
            &&& addr_header("Action"@, action).children == seq![NodeModel::Text(action)]
        }),
{
    let entries = header_entries(Option::Some(token), Option::Some(to), Option::Some(action));
    assert(entries =~= seq![
        NodeModel::Element(token),
        NodeModel::Element(addr_header("To"@, to)),
        NodeModel::Element(addr_header("Action"@, action)),
    ]);
}

/// A headerless envelope is wire-faithful whenever the fragment inside it
/// is: the parts the builder adds are fixed, plain names.
pub proof fn lemma_envelope_round_trippable(app: ElemModel)
    requires
        round_trippable(app),
    ensures
        round_trippable(envelope_of(app, Option::None, Option::None, Option::None)),
{
    let env = envelope_of(app, Option::None, Option::None, Option::None);
    let body = body_of(app);
    lemma_no_optional_headers(app);
    reveal_strlit("Envelope");
    reveal_strlit("Body");
    reveal_strlit("s");
    assert(plain_name("Envelope"@));
    assert(plain_name("Body"@));
    assert(plain_name("s"@));
    assert(round_trippable(body));
    assert(forall|i: int|
        0 <= i < env.children.len() ==> node_round_trippable(#[trigger] env.children[i]));
}

/// An envelope with all three headers is wire-faithful whenever the
/// fragment and the token element are, and the address and action texts
/// hold no carriage return.
pub proof fn lemma_full_envelope_round_trippable(
    app: ElemModel,
    token: ElemModel,
    to: Seq<char>,
    action: Seq<char>,
)
    requires
        round_trippable(app),
        round_trippable(token),
        no_char(to, '\r'),
        no_char(action, '\r'),
    ensures
        round_trippable(
            envelope_of(app, Option::Some(token), Option::Some(to), Option::Some(action)),
        ),
{
    let env = envelope_of(app, Option::Some(token), Option::Some(to), Option::Some(action));
    let entries = header_entries(Option::Some(token), Option::Some(to), Option::Some(action));
    lemma_header_composition(app, token, to, action);
    reveal_strlit("Envelope");
    reveal_strlit("Header");
    reveal_strlit("Body");
    reveal_strlit("s");
    reveal_strlit("wsa");
    reveal_strlit("To");
    reveal_strlit("Action");
    reveal_strlit("true");
    reveal_strlit("xmlns");
    reveal_strlit("s:mustUnderstand");
    assert(plain_name("Envelope"@));
    assert(plain_name("Header"@));
    assert(plain_name("Body"@));
    assert(plain_name("s"@));
    assert(plain_name("wsa"@));
    assert(plain_name("To"@));
    assert(plain_name("Action"@));

    let k = "s:mustUnderstand"@;
    assert(k[1] == ':');
    assert(has_colon(k));
    reveal_with_fuel(before_colon, 3);
    reveal_with_fuel(tail_after_colon, 3);
    assert(before_colon(k) =~= seq!['s']);
    assert(plain_name(before_colon(k)));
    assert(before_colon(k) != "xmlns"@);
    let tail = tail_after_colon(k);
    assert(tail =~= k.subrange(2, 16));
    assert(plain_name(tail)) by {
        assert(forall|i: int| 0 <= i < tail.len() ==> tail[i] == k[i + 2]);
    }
    assert(key_ok(k));
    assert(no_char("true"@, '\t'));

    let to_elem = addr_header("To"@, to);
    let action_elem = addr_header("Action"@, action);
    assert(round_trippable(to_elem));
    assert(round_trippable(action_elem));
    assert(round_trippable(body_of(app)));
    assert(forall|i: int|
        0 <= i < entries.len() ==> node_round_trippable(#[trigger] entries[i]));
    assert(round_trippable(header_of(entries)));
    assert(forall|i: int|
        0 <= i < env.children.len() ==> node_round_trippable(#[trigger] env.children[i]));
}

/// Round trip: an envelope built from a fragment with no token, address or
/// action, once carried over the wire (so only its canonical form is
/// known), still holds exactly one `Body`, whose only element child is the
/// fragment again, up to canonical form; no `Fault` is seen.  Both
/// transforms owe success on these inputs, so together with the contracts
/// of `soap` and `unsoap`, unwrapping a wrapped wire-faithful fragment
/// yields a payload, and any successful parse of that payload matches the
/// fragment's parse.
pub proof fn lemma_round_trip(app: ElemModel, w: ElemModel)
    requires
        app.name != "Fault"@,
        canon(w) == canon(envelope_of(app, Option::None, Option::None, Option::None)),
    ensures
        w.name == "Envelope"@,
        child_named(w, "Body"@) matches Option::Some(b) && {
            &&& child_named(b, "Fault"@) is None
            &&& elems_of(b.children).len() > 0
            &&& canon(elems_of(b.children)[0]) == canon(app)
        },
{
    let env = envelope_of(app, Option::None, Option::None, Option::None);
    let body = body_of(app);
    assert(canon(w).name == w.name);
    assert(w.name == "Envelope"@);

    lemma_no_optional_headers(app);
    assert(env.children == seq![NodeModel::Element(body)]);
    assert(kids_canon(env.children) =~= seq![NodeModel::Element(canon(body))]);
    lemma_norm_single_elem(canon(body));
    assert(canon(env).children == seq![NodeModel::Element(canon(body))]);

    lemma_norm_elems(kids_canon(w.children));
    lemma_kids_canon_elems(w.children);
    let es = elems_of(w.children);
    lemma_elems_of_one(NodeModel::Element(canon(body)));
    assert(elems_of(canon(w).children) == seq![canon(body)]);
    assert(elems_canon(es) == seq![canon(body)]);
    assert(es.len() == 1);
    let b = es[0];
    assert(elems_canon(es)[0] == canon(b));
    assert(seq![canon(body)][0] == canon(body));
    assert(canon(b) == canon(body));
    assert(b.name == canon(b).name);
    assert(b.name == "Body"@);
    assert(es =~= seq![b]);
    lemma_first_named_one(b, "Body"@);
    assert(child_named(w, "Body"@) == Option::Some(b));

    assert(body.children == seq![NodeModel::Element(app)]);
    assert(kids_canon(body.children) =~= seq![NodeModel::Element(canon(app))]);
    lemma_norm_single_elem(canon(app));
    assert(canon(body).children == seq![NodeModel::Element(canon(app))]);

    lemma_norm_elems(kids_canon(b.children));
    lemma_kids_canon_elems(b.children);
    let fs = elems_of(b.children);
    lemma_elems_of_one(NodeModel::Element(canon(app)));
    assert(elems_of(canon(b).children) == seq![canon(app)]);
    assert(elems_canon(fs) == seq![canon(app)]);
    assert(fs.len() == 1);
    let c = fs[0];
    assert(elems_canon(fs)[0] == canon(c));
    assert(seq![canon(app)][0] == canon(app));
    assert(canon(c) == canon(app));
    assert(c.name == canon(c).name);
    assert(c.name == app.name);
    assert(fs =~= seq![c]);
    lemma_first_named_one(c, "Fault"@);
    assert(child_named(b, "Fault"@) is None);
    assert(canon(elems_of(b.children)[0]) == canon(app));
}

/// Fault priority: when the body holds a `Fault` element, unwrapping never
/// returns a payload, whatever else stands beside the fault.
pub proof fn lemma_fault_priority(x: Seq<char>, r: Result<String, Error>)
    requires
        unsoap_post(r, x),
        spec_parse(x) matches Option::Some(root) && root.name == "Envelope"@ && (child_named(
            root,
            "Body"@,
        ) matches Option::Some(body) && child_named(body, "Fault"@) is Some),
    ensures
        !(r is Ok),
{
}

/// A body with no element child and no fault is reported as empty,
/// whatever text stands in it.
pub proof fn lemma_empty_body(x: Seq<char>, r: Result<String, Error>)
    requires
        unsoap_post(r, x),
        spec_parse(x) matches Option::Some(root) && root.name == "Envelope"@ && (child_named(
            root,
            "Body"@,
        ) matches Option::Some(body) && child_named(body, "Fault"@) is None && elems_of(
            body.children,
        ).len() == 0),
    ensures
        r matches Err(Error::BodyIsEmpty),
{
}

} // verus!
