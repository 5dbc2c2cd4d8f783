//! The envelope builder and parser: wrapping an application fragment into a
//! SOAP 1.2 envelope and unwrapping a received envelope back into the
//! fragment, with fault detection.

use vstd::prelude::*;
use vstd::string::StringExecFns;

use crate::engine::{parse_xml, spec_parse, spec_ser, str_eq, write_xml};
use crate::fault::{extract_fault, fault_err_of, fault_of, Fault};
use crate::model::{canon, child_named, elems_of, round_trippable};
use crate::tree::{
    lemma_elem_view, opt_str_view, pairs_view, ElemModel, NodeModel, XmlElement, XmlNode,
};

verus! {

/// Why a message could not be built or understood.  A `Fault` is a
/// well-formed protocol-level error response from the peer, distinct from
/// the malformed-message errors around it.
#[derive(Debug)]
pub enum Error {
    ParseError(xmltree::ParseError),
    EnvelopeNotFound,
    BodyNotFound,
    BodyIsEmpty,
    Fault(Box<Fault>),
    InternalError(String),
}

/// An extracted payload, if the response carried one.
#[derive(Debug)]
pub struct Response {
    pub response: Option<String>,
}

pub open spec fn soap_uri() -> Seq<char> {
    "http://www.w3.org/2003/05/soap-envelope"@
}

pub open spec fn wsa_uri() -> Seq<char> {
    "http://www.w3.org/2005/08/addressing"@
}

/// Binds `k` to `v` in a namespace map: an existing binding of `k` is
/// replaced (the later binding wins), otherwise the pair is appended.
pub open spec fn put_binding(
    ns: Seq<(Seq<char>, Seq<char>)>,
    k: Seq<char>,
    v: Seq<char>,
) -> Seq<(Seq<char>, Seq<char>)> {
    if exists|i: int| 0 <= i < ns.len() && (#[trigger] ns[i]).0 == k {
        Seq::new(ns.len(), |i: int| if 0 <= i < ns.len() && ns[i].0 == k { (k, v) } else { ns[i] })
    } else {
        ns.push((k, v))
    }
}

/// A WS-Addressing header entry: `To` or `Action`, prefixed `wsa`, carrying
/// the given text verbatim and `mustUnderstand="true"` under the SOAP
/// prefix.
pub open spec fn addr_header(name: Seq<char>, text: Seq<char>) -> ElemModel {
    ElemModel {
        name: name,
        prefix: Option::Some("wsa"@),
        attributes: seq![("s:mustUnderstand"@, "true"@)],
        namespaces: seq![("wsa"@, wsa_uri())],
        children: seq![NodeModel::Text(text)],
    }
}

/// The SOAP body: one child, the application element.
pub open spec fn body_of(app: ElemModel) -> ElemModel {
    ElemModel {
        name: "Body"@,
        prefix: Option::Some("s"@),
        attributes: Seq::empty(),
        namespaces: Seq::empty(),
        children: seq![NodeModel::Element(app)],
    }
}

/// The SOAP header element around the given entries.
pub open spec fn header_of(entries: Seq<NodeModel>) -> ElemModel {
    ElemModel {
        name: "Header"@,
        prefix: Option::Some("s"@),
        attributes: Seq::empty(),
        namespaces: Seq::empty(),
        children: entries,
    }
}

/// The header entries, in their fixed order: the security token, then
/// `To`, then `Action`, each only when present.
pub open spec fn header_entries(
    token: Option<ElemModel>,
    to: Option<Seq<char>>,
    action: Option<Seq<char>>,
) -> Seq<NodeModel> {
    (match token {
        Option::Some(t) => seq![NodeModel::Element(t)],
        Option::None => Seq::empty(),
    }) + (match to {
        Option::Some(a) => seq![NodeModel::Element(addr_header("To"@, a))],
        Option::None => Seq::empty(),
    }) + (match action {
        Option::Some(a) => seq![NodeModel::Element(addr_header("Action"@, a))],
        Option::None => Seq::empty(),
    })
}

/// The envelope built from an application element and the optional header
/// inputs: the SOAP binding (and, with addressing, the `wsa` binding) is
/// merged over the fragment's own bindings, the header (if any entries
/// exist) comes first, and the body always comes last.
pub open spec fn envelope_of(
    app: ElemModel,
    token: Option<ElemModel>,
    to: Option<Seq<char>>,
    action: Option<Seq<char>>,
) -> ElemModel {
    let ns0 = put_binding(app.namespaces, "s"@, soap_uri());
    let ns = if to is Some || action is Some {
        put_binding(ns0, "wsa"@, wsa_uri())
    } else {
        ns0
    };
    let entries = header_entries(token, to, action);
    let body = NodeModel::Element(body_of(app));
    ElemModel {
        name: "Envelope"@,
        prefix: Option::Some("s"@),
        attributes: Seq::empty(),
        namespaces: ns,
        children: if entries.len() > 0 {
            seq![NodeModel::Element(header_of(entries)), body]
        } else {
            seq![body]
        },
    }
}

/// What `soap` returns, as a relation over the parse of its inputs.
pub open spec fn soap_post(
    r: Result<String, Error>,
    xml: Seq<char>,
    token: Option<Seq<char>>,
    to: Option<Seq<char>>,
    action: Option<Seq<char>>,
) -> bool {
    match spec_parse(xml) {
        Option::None => r matches Err(Error::ParseError(_)),
        Option::Some(app) => {
            if token matches Option::Some(t) && spec_parse(t) is None {
                r matches Err(Error::ParseError(_))
            } else {
                let tok = match token {
                    Option::Some(t) => spec_parse(t),
                    Option::None => Option::None,
                };
                let env = envelope_of(app, tok, to, action);
                r matches Ok(s) && s@ == spec_ser(env) && (round_trippable(env)
                    ==> (spec_parse(s@) matches Option::Some(w) ==> canon(w) == canon(env)))
            }
        },
    }
}

/// Returns the namespace map with `k` bound to `v`: an existing binding
/// of `k` is replaced, otherwise the pair is appended.
fn put_ns(ns: &Vec<(String, String)>, k: &str, v: &str) -> (r: Vec<(String, String)>)
    ensures
        pairs_view(r@) == put_binding(pairs_view(ns@), k@, v@),
{
    let ghost orig = pairs_view(ns@);
    let mut out: Vec<(String, String)> = Vec::new();
    let mut found = false;
    let n = ns.len();
    let mut i: usize = 0;
    while i < n
        invariant
            n == ns.len(),
            i <= n,
            orig == pairs_view(ns@),
            found == exists|j: int| 0 <= j < i && (#[trigger] orig[j]).0 == k@,
            out@.len() == i,
            forall|j: int|
                0 <= j < i ==> ((#[trigger] out@[j]).0@, out@[j].1@) == (if orig[j].0 == k@ {
                    (k@, v@)
                } else {
                    orig[j]
                }),
        decreases n - i,
    {
        let ghost out0 = out@;
        let (key, value) = (&ns[i].0, &ns[i].1);
        if str_eq(key.as_str(), k) {
            out.push((String::from_str(k), String::from_str(v)));
            found = true;
            proof {
                assert(orig[i as int].0 == k@);
                assert((out@[i as int].0@, out@[i as int].1@) == (k@, v@));
            }
        } else {
            out.push((key.clone(), value.clone()));
            proof {
                assert(orig[i as int].0 != k@);
                assert((out@[i as int].0@, out@[i as int].1@) == orig[i as int]);
            }
        }
        proof {
            assert(forall|j: int| 0 <= j < i ==> out@[j] == out0[j]);
        }
        i += 1;
    }
    if !found {
        out.push((String::from_str(k), String::from_str(v)));
        proof {
            assert(!(exists|j: int| 0 <= j < orig.len() && (#[trigger] orig[j]).0 == k@));
            assert(pairs_view(out@) =~= put_binding(orig, k@, v@));
        }
        out
    } else {
        proof {
            assert(pairs_view(out@) =~= put_binding(orig, k@, v@));
        }
        out
    }
}

/// Builds a WS-Addressing header element carrying the given text verbatim.
fn addr_element(name: &str, text: String) -> (r: XmlElement)
    ensures
        r@ == addr_header(name@, text@),
{
    let r = XmlElement {
        name: String::from_str(name),
        prefix: Some(String::from_str("wsa")),
        attributes: vec![(String::from_str("s:mustUnderstand"), String::from_str("true"))],
        namespaces: vec![
            (String::from_str("wsa"), String::from_str("http://www.w3.org/2005/08/addressing")),
        ],
        children: vec![XmlNode::Text(text)],
    };
    proof {
        lemma_elem_view(&r);
        assert(r@.attributes =~= seq![("s:mustUnderstand"@, "true"@)]);
        assert(r@.namespaces =~= seq![("wsa"@, wsa_uri())]);
        assert(r@.children =~= seq![NodeModel::Text(text@)]);
        assert(r@ =~= addr_header(name@, text@));
    }
    r
}

/// Builds the SOAP body around the application element.
fn body_element(app: XmlElement) -> (r: XmlElement)
    ensures
        r@ == body_of(app@),
{
    let ghost app_m = app@;
    let r = XmlElement {
        name: String::from_str("Body"),
        prefix: Some(String::from_str("s")),
        attributes: Vec::new(),
        namespaces: Vec::new(),
        children: vec![XmlNode::Element(app)],
    };
    proof {
        lemma_elem_view(&r);
        assert(r@.attributes =~= Seq::<(Seq<char>, Seq<char>)>::empty());
        assert(r@.namespaces =~= Seq::<(Seq<char>, Seq<char>)>::empty());
        assert(r@.children =~= seq![NodeModel::Element(app_m)]);
        assert(r@ =~= body_of(app_m));
    }
    r
}

/// Wraps an application XML fragment into a SOAP 1.2 envelope, optionally
/// with a security-token header and WS-Addressing `To` and `Action`
/// headers.  When the fragment already binds a prefix that the envelope
/// binds, the envelope's binding replaces it at the root.
pub fn soap(
    xml: &str,
    username_token: &Option<String>,
    address_to: Option<String>,
    action: Option<String>,
) -> (r: Result<String, Error>)
    ensures
        soap_post(
            r,
            xml@,
            opt_str_view(*username_token),
            opt_str_view(address_to),
            opt_str_view(action),
        ),
{
    let app = match parse_xml(xml) {
        Ok(e) => e,
        Err(pe) => {
            return Err(Error::ParseError(pe));
        },
    };
    let ghost app_m = app@;
    proof {
        lemma_elem_view(&app);
    }
    let with_addressing = address_to.is_some() || action.is_some();
    let merged = put_ns(&app.namespaces, "s", "http://www.w3.org/2003/05/soap-envelope");
    let namespaces = if with_addressing {
        put_ns(&merged, "wsa", "http://www.w3.org/2005/08/addressing")
    } else {
        merged
    };

    let mut entries: Vec<XmlNode> = Vec::new();
    let ghost mut tok_m: Option<ElemModel> = Option::None;
    match username_token {
        Some(t) => {
            let te = match parse_xml(t.as_str()) {
                Ok(e) => e,
                Err(pe) => {
                    return Err(Error::ParseError(pe));
                },
            };
            proof {
                tok_m = Option::Some(te@);
            }
            entries.push(XmlNode::Element(te));
        },
        None => {},
    }
    match address_to {
        Some(a) => {
            entries.push(XmlNode::Element(addr_element("To", a)));
        },
        None => {},
    }
    match action {
        Some(a) => {
            entries.push(XmlNode::Element(addr_element("Action", a)));
        },
        None => {},
    }
    let ghost entries_m = header_entries(
        tok_m,
        opt_str_view(address_to),
        opt_str_view(action),
    );
    proof {
        assert(Seq::new(entries@.len(), |i: int| entries@[i]@) =~= entries_m);
    }

    let body = body_element(app);
    let mut children: Vec<XmlNode> = Vec::new();
    if entries.len() > 0 {
        let header = XmlElement {
            name: String::from_str("Header"),
            prefix: Some(String::from_str("s")),
            attributes: Vec::new(),
            namespaces: Vec::new(),
            children: entries,
        };
        proof {
            lemma_elem_view(&header);
            assert(header@.attributes =~= Seq::<(Seq<char>, Seq<char>)>::empty());
            assert(header@.namespaces =~= Seq::<(Seq<char>, Seq<char>)>::empty());
            assert(header@.children =~= entries_m);
            assert(header@ =~= header_of(entries_m));
        }
        children.push(XmlNode::Element(header));
    }
    children.push(XmlNode::Element(body));

    let envelope = XmlElement {
        name: String::from_str("Envelope"),
        prefix: Some(String::from_str("s")),
        attributes: Vec::new(),
        namespaces,
        children,
    };
    proof {
        lemma_elem_view(&envelope);
        assert(envelope@.attributes =~= Seq::<(Seq<char>, Seq<char>)>::empty());
        assert(envelope@.children =~= envelope_of(
            app_m,
            tok_m,
            opt_str_view(address_to),
            opt_str_view(action),
        ).children);
        assert(envelope@ =~= envelope_of(
            app_m,
            tok_m,
            opt_str_view(address_to),
            opt_str_view(action),
        ));
    }
    Ok(write_xml(&envelope))
}

/// What `unsoap` returns, as a relation over the parse of its input.
pub open spec fn unsoap_post(r: Result<String, Error>, xml: Seq<char>) -> bool {
    match spec_parse(xml) {
        Option::None => r matches Err(Error::ParseError(_)),
        Option::Some(root) => {
            if root.name != "Envelope"@ {
                r matches Err(Error::EnvelopeNotFound)
            } else {
                match child_named(root, "Body"@) {
                    Option::None => r matches Err(Error::BodyNotFound),
                    Option::Some(body) => match child_named(body, "Fault"@) {
                        Option::Some(f) => match fault_of(f) {
                            Option::Some(fm) => r matches Err(Error::Fault(ft)) && ft@ == fm,
                            Option::None => r matches Err(Error::InternalError(d)) && d@
                                == fault_err_of(f),
                        },
                        Option::None => {
                            let es = elems_of(body.children);
                            if es.len() == 0 {
                                r matches Err(Error::BodyIsEmpty)
                            } else {
                                r matches Ok(y) && y@ == spec_ser(es[0]) && (round_trippable(
                                    es[0],
                                ) ==> (spec_parse(y@) matches Option::Some(z) ==> canon(z)
                                    == canon(es[0])))
                            }
                        },
                    },
                }
            }
        },
    }
}

/// Unwraps a received SOAP envelope: returns the serialized application
/// element from the body, or the error that the message carries.  A `Fault`
/// in the body always wins over any payload beside it.
pub fn unsoap(xml: &str) -> (r: Result<String, Error>)
    ensures
        unsoap_post(r, xml@),
{
    let root = match parse_xml(xml) {
        Ok(e) => e,
        Err(pe) => {
            return Err(Error::ParseError(pe));
        },
    };
    proof {
        lemma_elem_view(&root);
    }
    if !str_eq(root.name.as_str(), "Envelope") {
        return Err(Error::EnvelopeNotFound);
    }
    let body = match root.get_child("Body") {
        Some(b) => b,
        None => {
            return Err(Error::BodyNotFound);
        },
    };
    match body.get_child("Fault") {
        Some(f) => {
            return match extract_fault(f) {
                Ok(ft) => Err(Error::Fault(Box::new(ft))),
                Err(d) => Err(Error::InternalError(d)),
            };
        },
        None => {},
    }
    let payload = match body.first_child_element() {
        Some(c) => c,
        None => {
            return Err(Error::BodyIsEmpty);
        },
    };
    Ok(write_xml(payload))
}

} // verus!
