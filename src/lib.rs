//! Project-knowledge indexing: typed, content-addressed chunks of a source
//! repository, a verified in-memory chunk store, the per-file extractors, and
//! the bookkeeping of a dual (master / agent) snapshot timeline.

pub mod ast;
pub mod callgraph;
pub mod classify;
pub mod commits;
pub mod extract;
pub mod hashing;
pub mod json;
pub mod orchestrator;
pub mod order;
pub mod rules;
pub mod snapshots;
pub mod store;
pub mod test_surface;
pub mod text;
pub mod timeline;
pub mod types;
