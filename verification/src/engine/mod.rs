//! The workflow engine: identifiers, storage keys, domain types, and the
//! decisions the engine takes on them.

pub mod ids;
pub mod keys;
pub mod types;
pub mod model;
pub mod decide;
pub mod json;
pub mod store;
pub mod worker;
pub mod workflow;
