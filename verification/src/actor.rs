//! Long-running actors and the decisions they take.
pub mod indexing;
