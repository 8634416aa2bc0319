//! Construction of Elasticsearch-style boolean query documents from
//! declarative specifications bound to a host record's fields.
//!
//! The crate has two strategies. The template strategy validates a JSON
//! template with `{{name}}` placeholders and, at run time, substitutes
//! live field values into it with JSON string escaping. The filter
//! strategy compiles an ordered list of typed filter declarations against
//! a host schema and, at run time, builds a typed `Query` tree that
//! serializes to JSON text.

use vstd::prelude::*;

pub mod clauses;
pub mod escape;
pub mod filters;
pub mod searchable;
pub mod template;
pub mod text;

verus! {

/// The capability the filter strategy attaches to a host type:
/// producing the query document for the host's current field values.
pub trait SearchQuery {
    fn get_search_query(&self) -> crate::clauses::Query;
}

} // verus!
