//! Type-level dependency graphs of a single Rust source file.
//!
//! For every type that the file declares (struct, enum, union, type alias,
//! trait) the library finds the named types that its fields mention and the
//! traits that bound its generic parameters, and records them as the edges
//! of a directed graph.

pub mod assemble;
pub mod dependence;
pub mod dot;
pub mod extract;
pub mod graph;
pub mod laws;
pub mod resolve;
pub mod sets;
pub mod source;
pub mod syntax;

pub use crate::assemble::{BuildError, Mode, TypeMap, Warning};
pub use crate::dependence::{Dependence, DependenceType, Edge};
pub use crate::graph::{DepGraph, GraphNode};
pub use crate::sets::{DepSet, NameSet};
pub use crate::syntax::{
    Argument, Declaration, FieldGroup, NamedField, Parameter, Segment, SourceItem, TypeBound,
    TypeExpr, TypePath,
};
