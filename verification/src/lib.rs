//! A source-package build engine: the recipe model, the recipe reader, and the
//! decisions of the staged build pipeline.

pub mod definition;
pub mod digest;
pub mod engine;
pub mod paths;
pub mod text;
pub mod traversal;
pub mod utils;
