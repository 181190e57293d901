//! In-memory data model, literal-to-RDF term mapping, and structural
//! equivalence engine for JSON-LD documents.
//!
//! The crate has four parts:
//! - [`syntax`]: a JSON syntax tree with lexical numbers and a
//!   well-formedness predicate (unique keys in every object);
//! - [`compare`]: the order-independent deep-equality oracle over syntax
//!   trees (array order and object key order are insignificant);
//! - [`object`]: the typed object graph of a JSON-LD document (value,
//!   node and list objects, indexed envelopes, the capability view);
//! - [`rdf`]: the mapping from scalar values to RDF literal terms, with
//!   datatype coercion and language-tag interning.

pub mod syntax;
pub mod compare;
pub mod object;
pub mod rdf;
