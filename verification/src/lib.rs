//! View-model of a commit-graph explorer.
//!
//! The user types two queries: the view query selects the commits that are
//! displayed, the selection query those that are highlighted. A repository
//! engine evaluates the queries. This library holds what happens around the
//! engine: the edit history of the two query fields, the size-bounded graph
//! that is built from the commits of the view query, the visual category of
//! every node, and the steps of a processing tick.

pub mod category;
pub mod create;
pub mod explorer;
pub mod graph;
pub mod history;
pub mod mark;
pub mod message;
pub mod revset;
