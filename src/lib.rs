//! Project scaffolding engine: builds a substitution context from a project
//! identifier, lists the templates of a catalog, and turns a template tree into
//! the ordered steps that materialise it in an output directory.

pub mod cli;
pub mod context;
pub mod error;
pub mod template;

pub use context::TemplateContext;
pub use error::{Error, Result};
pub use template::TemplateEngine;
