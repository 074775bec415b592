//! A schema-driven deserializer for one closed document format.
//!
//! A document arrives as an untyped tree of nodes (scalar text, ordered
//! mapping, or sequence). The library converts that tree into a
//! strongly-typed `Component`: a named unit with a backend identifier and a
//! recursive tree of `Action`s, each carrying typed arguments and lifecycle
//! hooks. Every conversion rule is specified against a mathematical model of
//! the document tree and proved to follow it.

pub mod assoc;
pub mod convert;
pub mod laws;
pub mod model;
pub mod node;
pub mod schema;
