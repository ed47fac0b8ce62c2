//! Execution engine for a Go-style text-templating system: the tree walker
//! that interprets a parsed template tree against a dynamic data context and
//! produces the rendered text.
//!
//! The data model lives in [`value`], the parse-tree shapes in [`node`], the
//! variable stack in [`vars`], the function table in [`funcs`]. What a render
//! means is defined once, as a specification-level interpreter, in [`sem`];
//! the executable walker in [`exec`] is proved to match it, and [`laws`]
//! states the properties that hold of every render.

pub mod errors;
pub mod exec;
pub mod funcs;
pub mod laws;
pub mod node;
pub mod sem;
pub mod value;
pub mod vars;
