//! Cost computation for GraphQL operations: a static estimate from a
//! document and the schema's cost annotations, an estimate from a federated
//! query plan, and the actual cost of a received response.
pub mod arguments;
pub mod cost;
pub mod error;
pub mod estimate;
pub mod laws;
pub mod list_size;
pub mod lookup;
pub mod plan;
pub mod query;
pub mod response;
pub mod schema;
