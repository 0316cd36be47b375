//! Metadata shared by all definitions: API version, kind and authority.

use vstd::prelude::*;

verus! {

/// API version for DeGov DSL
#[derive(Debug, Clone, Copy, PartialEq, Eq, Structural)]
pub enum ApiVersion {
    V1,
    V1Short,
}

/// Kind of DSL definition
#[derive(Debug, Clone, PartialEq, Eq)]
pub enum Kind {
    Service,
    DataModel,
    Workflow,
    Permission,
    Credential,
    Plugin,
    Test,
    Migration,
    Deployment,
}

/// Authority that owns and manages a definition
#[derive(Debug)]
pub struct Authority {
    /// Decentralized Identifier (DID) of the authority
    pub did: String,
    /// Human-readable name of the authority
    pub name: String,
    /// Logo URL
    pub logo: Option<String>,
    /// Contact email
    pub email: Option<String>,
}

impl Clone for Authority {
    fn clone(&self) -> (r: Self)
        ensures
            r == *self,
    {
        Authority {
            did: self.did.clone(),
            name: self.name.clone(),
            logo: self.logo.clone(),
            email: self.email.clone(),
        }
    }
}

}
