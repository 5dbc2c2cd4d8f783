//! Tests of the verified tree operations: child lookup and text
//! extraction.

use soap::{XmlElement, XmlNode};

fn elem(name: &str, children: Vec<XmlNode>) -> XmlElement {
    XmlElement {
        name: name.to_string(),
        prefix: None,
        attributes: Vec::new(),
        namespaces: Vec::new(),
        children,
    }
}

#[test]
fn get_child_finds_first_matching_element() {
    let tree = elem(
        "root",
        vec![
            XmlNode::Text("noise".to_string()),
            XmlNode::Element(elem("a", vec![XmlNode::Text("one".to_string())])),
            XmlNode::Element(elem("b", Vec::new())),
            XmlNode::Element(elem("a", vec![XmlNode::Text("two".to_string())])),
        ],
    );
    let a = tree.get_child("a").expect("a present");
    assert_eq!(a.text_content(), "one");
    assert!(tree.get_child("b").is_some());
    assert!(tree.get_child("missing").is_none());
}

#[test]
fn first_child_element_skips_text_and_comments() {
    let tree = elem(
        "root",
        vec![
            XmlNode::Text("  ".to_string()),
            XmlNode::Comment(" note ".to_string()),
            XmlNode::Element(elem("inner", Vec::new())),
        ],
    );
    assert_eq!(tree.first_child_element().unwrap().name, "inner");
    let empty = elem("root", vec![XmlNode::Text("just text".to_string())]);
    assert!(empty.first_child_element().is_none());
}

#[test]
fn text_content_concatenates_text_and_cdata() {
    let tree = elem(
        "root",
        vec![
            XmlNode::Text("a".to_string()),
            XmlNode::CData("b".to_string()),
            XmlNode::Element(elem("skip", vec![XmlNode::Text("c".to_string())])),
            XmlNode::Text("d".to_string()),
        ],
    );
    assert_eq!(tree.text_content(), "abd");
}
