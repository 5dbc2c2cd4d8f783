//! SOAP 1.2 envelope construction and parsing for device-control payloads.
//!
//! The crate wraps an application XML fragment into a SOAP envelope,
//! optionally with WS-Security and WS-Addressing headers, and unwraps a
//! received envelope back into the application fragment, extracting
//! protocol-level faults along the way.

pub mod engine;
pub mod envelope;
pub mod fault;
pub mod laws;
pub mod model;
pub mod ops;
pub mod tree;

pub use envelope::{soap, unsoap, Error, Response};
pub use fault::Fault;
pub use tree::{XmlElement, XmlNode};
