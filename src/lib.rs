//! Resolution of named environment values from a parsed configuration
//! document: declarations are looked up directly among the runtime
//! parameters or computed by filling a procedure's template.

pub mod error;
pub mod text;
pub mod pairs;
pub mod utilities;
pub mod node;
pub mod scalar;
pub mod resolver;
pub mod source;
pub mod engine;
