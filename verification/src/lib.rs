//! Declarative configuration binding: parses s-expression configuration
//! elements into typed entities and resolves a window definition's declared
//! parameter schema against the arguments supplied at instantiation time.

pub mod anchor;
pub mod ast;
pub mod coords;
pub mod dynval;
pub mod monitor;
pub mod numeric;
pub mod strutil;
pub mod var_definition;
pub mod varmap;
pub mod window_arguments;
pub mod window_definition;
