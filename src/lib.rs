//! Block-by-block indexing of lender-group pools: event extraction, keyed
//! aggregate stores with per-block delta logs, and projection of events and
//! aggregates into entity row operations.
pub mod block;
pub mod collateral;
pub mod contract;
pub mod delta_rows;
pub mod extract;
pub mod indexer;
pub mod keys;
pub mod metrics;
pub mod project;
pub mod registry;
pub mod sink_sql;
pub mod sink_subgraph;
pub mod store;
pub mod text;
pub mod token;
