//! Configuration of a subgraph sink service.
use vstd::prelude::*;

verus! {

/// A subgraph sink: its schema and subgraph definition.
#[derive(Clone, Debug, PartialEq, Default)]
pub struct Service {
    pub schema: String,
    pub subgraph_yaml: String,
    pub postgres_direct_protocol_access: bool,
    pub pgweb_frontend: Option<PgWebFrontend>,
}

/// A pgweb frontend.
#[derive(Clone, Debug, PartialEq, Default)]
pub struct PgWebFrontend {
    pub enabled: bool,
}

} // verus!
