//! Resolves, for a token of a syntax tree, the call argument or generic
//! argument that it belongs to, and the parameter of the resolved callable
//! or generic definition that this argument binds to.

pub mod active_parameter;
pub mod sema;
pub mod tree;
