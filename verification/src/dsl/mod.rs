//! The DeGov DSL: KDL documents, schemas and their validation.

pub mod numeric;
pub mod span;
pub mod error;
pub mod document;
pub mod kdl_bridge;
pub mod schema;
pub mod validate;
pub mod parser;
pub mod metadata;
pub mod model;
pub mod credential;
pub mod permission;
pub mod service;
pub mod workflow;
pub mod graph;
pub mod syntax;
pub mod validation;
