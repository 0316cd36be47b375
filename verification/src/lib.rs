//! DeGov: verified core of a DSL for government services (schema-checked KDL
//! documents, model inheritance) and of a workflow engine's decision logic.

pub mod text;
pub mod dsl;
pub mod engine;
pub mod lsp;
pub mod rpc_gen;
