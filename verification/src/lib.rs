//! Builder and evaluator for a small arithmetic computation graph (a DAG)
//! with equality constraints and externally computed "hint" values.
//!
//! A caller incrementally declares nodes (inputs, constants, additions,
//! multiplications, and hints whose value comes from a host-supplied
//! function), declares equality constraints between node values, then binds
//! concrete input values, computes every node's value with
//! [`Builder::fill_nodes`], and finally checks the constraint set with
//! [`Builder::check_constraints`].

pub mod errors;
pub mod graph;
pub mod hints;
pub mod node;
pub mod semantics;

pub use errors::FillError;
pub use graph::Builder;
pub use hints::{HintFn, QuotientHint, RatioHint, RootHint};
pub use node::{HintFunction, Node, NodeType};
