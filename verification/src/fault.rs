//! Structured SOAP faults, extracted from a `Fault` element subtree.

use vstd::prelude::*;
use vstd::string::StringExecFns;

use crate::model::{child_named, text_concat};
use crate::tree::{ElemModel, XmlElement};

verus! {

/// A protocol-level fault reported by the remote peer: its code, its
/// human-readable reason, and optional detail text.
#[derive(Debug)]
pub struct Fault {
    pub code: String,
    pub reason: String,
    pub detail: Option<String>,
}

/// The mathematical model of a fault.
#[verifier::ext_equal]
pub ghost struct FaultModel {
    pub code: Seq<char>,
    pub reason: Seq<char>,
    pub detail: Option<Seq<char>>,
}

impl View for Fault {
    type V = FaultModel;

    open spec fn view(&self) -> FaultModel {
        FaultModel {
            code: self.code@,
            reason: self.reason@,
            detail: crate::tree::opt_str_view(self.detail),
        }
    }
}

/// The fault carried by a `Fault` element: the text under `Code`/`Value`,
/// the text under `Reason`/`Text`, and, when a `Detail` child is present,
/// its text.  `None` when the subtree does not have that shape.
pub open spec fn fault_of(f: ElemModel) -> Option<FaultModel> {
    match child_named(f, "Code"@) {
        Option::None => Option::None,
        Option::Some(code) => match child_named(code, "Value"@) {
            Option::None => Option::None,
            Option::Some(value) => match child_named(f, "Reason"@) {
                Option::None => Option::None,
                Option::Some(reason) => match child_named(reason, "Text"@) {
                    Option::None => Option::None,
                    Option::Some(text) => Option::Some(
                        FaultModel {
                            code: text_concat(value.children),
                            reason: text_concat(text.children),
                            detail: match child_named(f, "Detail"@) {
                                Option::Some(d) => Option::Some(text_concat(d.children)),
                                Option::None => Option::None,
                            },
                        },
                    ),
                },
            },
        },
    }
}

/// The diagnostic reported for a subtree without the fault shape: it names
/// the first missing piece.
pub open spec fn fault_err_of(f: ElemModel) -> Seq<char> {
    match child_named(f, "Code"@) {
        Option::None => "Fault element has no Code"@,
        Option::Some(code) => match child_named(code, "Value"@) {
            Option::None => "Fault Code has no Value"@,
            Option::Some(_) => match child_named(f, "Reason"@) {
                Option::None => "Fault element has no Reason"@,
                Option::Some(reason) => match child_named(reason, "Text"@) {
                    Option::None => "Fault Reason has no Text"@,
                    Option::Some(_) => Seq::empty(),
                },
            },
        },
    }
}

/// Maps a `Fault` element subtree into a structured fault value; a subtree
/// without the fault shape is a structural mismatch, reported as the
/// diagnostic naming the first missing piece.
pub fn extract_fault(f: &XmlElement) -> (r: Result<Fault, String>)
    ensures
        match r {
            Ok(ft) => fault_of(f@) == Option::Some(ft@),
            Err(d) => fault_of(f@) is None && d@ == fault_err_of(f@),
        },
{
    let code_elem = match f.get_child("Code") {
        Some(c) => c,
        None => {
            return Err(String::from_str("Fault element has no Code"));
        },
    };
    let value_elem = match code_elem.get_child("Value") {
        Some(c) => c,
        None => {
            return Err(String::from_str("Fault Code has no Value"));
        },
    };
    let reason_elem = match f.get_child("Reason") {
        Some(c) => c,
        None => {
            return Err(String::from_str("Fault element has no Reason"));
        },
    };
    let text_elem = match reason_elem.get_child("Text") {
        Some(c) => c,
        None => {
            return Err(String::from_str("Fault Reason has no Text"));
        },
    };
    let detail = match f.get_child("Detail") {
        Some(d) => Some(d.text_content()),
        None => None,
    };
    Ok(Fault { code: value_elem.text_content(), reason: text_elem.text_content(), detail })
}

} // verus!
