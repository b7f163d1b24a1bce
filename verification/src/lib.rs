//! Value-model and wire-translation layer of a document-store client.
//!
//! The library converts between a dynamically shaped document value
//! representation and the strongly typed wire protocol messages of the
//! store (keys, entities, values, queries, filters, aggregations), applies
//! the per-kind index-exclusion policy while doing so, and contains the
//! decision logic of the batching, pagination and mutation paths.  All of
//! it is pure: the RPC transport around it only carries the request and
//! response messages that these functions build and consume.
use vstd::prelude::*;

pub mod exclude;
pub mod keys;
pub mod codec;
pub mod convert;
pub mod ops;
pub mod query;
pub mod values;

verus! {

/// Errors of the conversion layer.  Transport failures stay with the
/// transport; everything here is structural.
#[derive(Debug)]
pub enum Error {
    /// A value had a different variant than the context demanded.
    UnexpectedPropertyType { expected: String, got: String },
    /// A required property was absent from an entity; carries its name.
    MissingProperty(String),
    /// A string did not name any known enumeration variant.
    UnknownVariant(String),
    /// A key with an incomplete terminal id was used where a fully
    /// identified key is required (for example in a delete).
    IncompleteKey,
}

} // verus!
