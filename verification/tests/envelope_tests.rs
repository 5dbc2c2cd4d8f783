//! End-to-end tests of the envelope builder and parser, with the real XML
//! engine linked.

use soap::{soap, unsoap, Error};

/// Parses a document and returns the root element.
fn parse(s: &str) -> xmltree::Element {
    xmltree::Element::parse(s.as_bytes()).expect("well-formed XML")
}

/// Semantic equality on elements: names, prefixes, attributes and children
/// must agree; namespace scoping bookkeeping may differ.
fn sem_eq(a: &xmltree::Element, b: &xmltree::Element) -> bool {
    if a.name != b.name || a.prefix != b.prefix || a.attributes != b.attributes {
        return false;
    }
    if a.children.len() != b.children.len() {
        return false;
    }
    for (ca, cb) in a.children.iter().zip(b.children.iter()) {
        let ok = match (ca, cb) {
            (xmltree::XMLNode::Element(ea), xmltree::XMLNode::Element(eb)) => sem_eq(ea, eb),
            (xmltree::XMLNode::Text(ta), xmltree::XMLNode::Text(tb)) => ta == tb,
            (xmltree::XMLNode::CData(ta), xmltree::XMLNode::CData(tb)) => ta == tb,
            (xmltree::XMLNode::Comment(ta), xmltree::XMLNode::Comment(tb)) => ta == tb,
            _ => false,
        };
        if !ok {
            return false;
        }
    }
    true
}

#[test]
fn wrap_plain_fragment_builds_canonical_envelope() {
    let out = soap("<Foo>bar</Foo>", &None, None, None).unwrap();
    let root = parse(&out);
    let expected = parse(
        "<s:Envelope xmlns:s=\"http://www.w3.org/2003/05/soap-envelope\">\
         <s:Body><Foo>bar</Foo></s:Body></s:Envelope>",
    );
    assert!(sem_eq(&root, &expected));
    assert_eq!(
        root.namespaces.as_ref().unwrap().get("s"),
        Some("http://www.w3.org/2003/05/soap-envelope")
    );
}

#[test]
fn round_trip_returns_the_fragment() {
    let out = soap("<Foo>bar</Foo>", &None, None, None).unwrap();
    let payload = unsoap(&out).unwrap();
    assert!(sem_eq(&parse(&payload), &parse("<Foo>bar</Foo>")));
}

#[test]
fn round_trip_keeps_attributes_and_structure() {
    let fragment = "<a:Foo xmlns:a=\"urn:x\" k=\"v &amp; w\"><Bar>t</Bar><Baz/></a:Foo>";
    let out = soap(fragment, &None, None, None).unwrap();
    let payload = unsoap(&out).unwrap();
    assert!(sem_eq(&parse(&payload), &parse(fragment)));
}

#[test]
fn no_header_when_no_optional_inputs() {
    let out = soap("<Foo/>", &None, None, None).unwrap();
    let root = parse(&out);
    assert!(root.get_child("Header").is_none());
    assert_eq!(root.children.len(), 1);
    assert!(root.get_child("Body").is_some());
}

#[test]
fn header_holds_token_to_and_action_in_order() {
    let token = Some("<wsse:UsernameToken xmlns:wsse=\"urn:sec\">\
                      <wsse:Username>u</wsse:Username></wsse:UsernameToken>"
        .to_string());
    let out = soap(
        "<Foo/>",
        &token,
        Some("http://dest".to_string()),
        Some("http://action".to_string()),
    )
    .unwrap();
    let root = parse(&out);
    let header = root.get_child("Header").expect("header present");
    let entries: Vec<&xmltree::Element> = header
        .children
        .iter()
        .filter_map(|n| n.as_element())
        .collect();
    assert_eq!(entries.len(), 3);
    assert_eq!(entries[0].name, "UsernameToken");
    assert_eq!(entries[1].name, "To");
    assert_eq!(entries[2].name, "Action");
    // The body still follows the header.
    assert_eq!(root.children.len(), 2);
    assert_eq!(root.children[1].as_element().unwrap().name, "Body");
}

#[test]
fn addressing_headers_carry_text_and_must_understand() {
    let out = soap(
        "<Foo/>",
        &None,
        Some("http://dest".to_string()),
        Some("http://action".to_string()),
    )
    .unwrap();
    let root = parse(&out);
    let header = root.get_child("Header").expect("header present");
    let to = header.get_child("To").expect("To present");
    let action = header.get_child("Action").expect("Action present");
    assert_eq!(to.get_text().as_deref(), Some("http://dest"));
    assert_eq!(action.get_text().as_deref(), Some("http://action"));
    assert_eq!(to.prefix.as_deref(), Some("wsa"));
    assert_eq!(action.prefix.as_deref(), Some("wsa"));
    assert_eq!(to.attributes.get("mustUnderstand").map(String::as_str), Some("true"));
    assert_eq!(
        action.attributes.get("mustUnderstand").map(String::as_str),
        Some("true")
    );
    assert_eq!(
        root.namespaces.as_ref().unwrap().get("wsa"),
        Some("http://www.w3.org/2005/08/addressing")
    );
}

#[test]
fn envelope_binding_replaces_fragment_binding() {
    // The fragment already binds `wsa` to another URI; the envelope's
    // binding wins at the root.
    let out = soap(
        "<Foo xmlns:wsa=\"urn:other\"/>",
        &None,
        Some("http://dest".to_string()),
        None,
    )
    .unwrap();
    let root = parse(&out);
    assert_eq!(
        root.namespaces.as_ref().unwrap().get("wsa"),
        Some("http://www.w3.org/2005/08/addressing")
    );
}

#[test]
fn wrap_rejects_malformed_fragment() {
    let r = soap("<Foo", &None, None, None);
    assert!(matches!(r, Err(Error::ParseError(_))));
}

#[test]
fn wrap_rejects_malformed_token() {
    let r = soap("<Foo/>", &Some("<tok".to_string()), None, None);
    assert!(matches!(r, Err(Error::ParseError(_))));
}

#[test]
fn unwrap_rejects_malformed_input() {
    let r = unsoap("no xml at all");
    assert!(matches!(r, Err(Error::ParseError(_))));
}

#[test]
fn unwrap_requires_an_envelope() {
    let r = unsoap("<Foo/>");
    assert!(matches!(r, Err(Error::EnvelopeNotFound)));
}

#[test]
fn unwrap_requires_a_body() {
    let r = unsoap("<Envelope xmlns=\"http://www.w3.org/2003/05/soap-envelope\"/>");
    assert!(matches!(r, Err(Error::BodyNotFound)));
}

#[test]
fn whitespace_only_body_is_empty() {
    let r = unsoap(
        "<s:Envelope xmlns:s=\"http://www.w3.org/2003/05/soap-envelope\">\
         <s:Body>   </s:Body></s:Envelope>",
    );
    assert!(matches!(r, Err(Error::BodyIsEmpty)));
}

#[test]
fn text_only_body_is_empty() {
    let r = unsoap(
        "<s:Envelope xmlns:s=\"http://www.w3.org/2003/05/soap-envelope\">\
         <s:Body>just text</s:Body></s:Envelope>",
    );
    assert!(matches!(r, Err(Error::BodyIsEmpty)));
}

#[test]
fn fault_wins_over_payload() {
    let r = unsoap(
        "<s:Envelope xmlns:s=\"http://www.w3.org/2003/05/soap-envelope\"><s:Body>\
         <s:Fault><s:Code><s:Value>s:Sender</s:Value></s:Code>\
         <s:Reason><s:Text>went wrong</s:Text></s:Reason></s:Fault>\
         <Other>payload</Other>\
         </s:Body></s:Envelope>",
    );
    match r {
        Err(Error::Fault(f)) => {
            assert_eq!(f.code, "s:Sender");
            assert_eq!(f.reason, "went wrong");
            assert_eq!(f.detail, None);
        },
        other => panic!("expected a fault, got {:?}", other.is_ok()),
    }
}

#[test]
fn fault_detail_is_extracted() {
    let r = unsoap(
        "<s:Envelope xmlns:s=\"http://www.w3.org/2003/05/soap-envelope\"><s:Body>\
         <s:Fault><s:Code><s:Value>s:Receiver</s:Value></s:Code>\
         <s:Reason><s:Text>busy</s:Text></s:Reason>\
         <s:Detail>try later</s:Detail></s:Fault>\
         </s:Body></s:Envelope>",
    );
    match r {
        Err(Error::Fault(f)) => {
            assert_eq!(f.code, "s:Receiver");
            assert_eq!(f.reason, "busy");
            assert_eq!(f.detail.as_deref(), Some("try later"));
        },
        _ => panic!("expected a fault"),
    }
}

#[test]
fn misshapen_fault_is_an_internal_error() {
    let r = unsoap(
        "<s:Envelope xmlns:s=\"http://www.w3.org/2003/05/soap-envelope\"><s:Body>\
         <s:Fault><s:Code><s:Value>s:Sender</s:Value></s:Code></s:Fault>\
         </s:Body></s:Envelope>",
    );
    match r {
        Err(Error::InternalError(d)) => assert_eq!(d, "Fault element has no Reason"),
        _ => panic!("expected an internal error"),
    }
}

#[test]
fn fault_without_code_names_the_missing_piece() {
    let r = unsoap(
        "<s:Envelope xmlns:s=\"http://www.w3.org/2003/05/soap-envelope\"><s:Body>\
         <s:Fault><s:Reason><s:Text>bad</s:Text></s:Reason></s:Fault>\
         </s:Body></s:Envelope>",
    );
    match r {
        Err(Error::InternalError(d)) => assert_eq!(d, "Fault element has no Code"),
        _ => panic!("expected an internal error"),
    }
}

#[test]
fn unwrap_returns_first_element_of_body() {
    let r = unsoap(
        "<s:Envelope xmlns:s=\"http://www.w3.org/2003/05/soap-envelope\"><s:Body>\
         some text<First>1</First><Second>2</Second></s:Body></s:Envelope>",
    )
    .unwrap();
    let root = parse(&r);
    assert_eq!(root.name, "First");
}

#[test]
fn comment_and_cdata_children_round_trip() {
    let fragment = "<Foo><!-- note --><![CDATA[a<b]]>tail</Foo>";
    let out = soap(fragment, &None, None, None).unwrap();
    let payload = unsoap(&out).unwrap();
    assert!(sem_eq(&parse(&payload), &parse(fragment)));
}

#[test]
fn unwrap_accepts_default_namespace_envelope() {
    let r = unsoap(
        "<Envelope xmlns=\"http://www.w3.org/2003/05/soap-envelope\">\
         <Body><Payload>x</Payload></Body></Envelope>",
    )
    .unwrap();
    assert_eq!(parse(&r).name, "Payload");
}

#[test]
fn default_namespace_fragment_round_trips() {
    let fragment = "<Foo xmlns=\"urn:app\"><Bar>x</Bar></Foo>";
    let out = soap(fragment, &None, None, None).unwrap();
    let payload = unsoap(&out).unwrap();
    let root = parse(&payload);
    assert!(sem_eq(&root, &parse(fragment)));
    assert_eq!(root.namespace.as_deref(), Some("urn:app"));
}
