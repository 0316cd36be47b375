//! Verifiable credential definitions: the properties, issuance conditions,
//! proof, revocation, display and portability settings of a credential.

use vstd::prelude::*;
use crate::dsl::metadata::{ApiVersion, Authority};
use crate::dsl::model::Metadata;

verus! {

/// Property in credential subject
#[derive(Debug, Clone)]
pub struct CredentialProperty {
    pub property_type: String,
    pub description: Option<String>,
    /// Source field from the data model
    pub source: Option<String>,
    /// Computed value (JavaScript)
    pub computed: Option<String>,
    /// Format hint
    pub format: Option<String>,
}

/// Issuance condition
#[derive(Debug, Clone)]
pub enum IssuanceCondition {
    /// Workflow state condition
    WorkflowState {
        workflow_state: String,
    },
    /// Payment status condition
    PaymentStatus {
        payment_status: String,
    },
    /// Custom condition
    Custom {
        condition: String,
    },
}

/// Proof configuration
#[derive(Debug, Clone)]
pub struct ProofConfig {
    pub proof_type: String,
    pub key_type: String,
    pub proof_purpose: String,
}

/// Revocation configuration
#[derive(Debug, Clone)]
pub struct RevocationConfig {
    pub revocation_type: String,
    pub status_list_url: String,
    /// Conditions under which credential should be revoked
    pub conditions: Vec<String>,
}

/// Display configuration for credential
#[derive(Debug, Clone)]
pub struct DisplayConfig {
    pub title: String,
    pub subtitle: Option<String>,
    pub background_color: Option<String>,
    pub text_color: Option<String>,
    /// Properties to display
    pub properties: Vec<DisplayProperty>,
    /// QR code configuration
    pub qr_code: Option<QrCodeConfig>,
}

/// Display property
#[derive(Debug, Clone)]
pub struct DisplayProperty {
    pub label: String,
    pub path: String,
    pub display_format: Option<String>,
}

/// QR code configuration
#[derive(Debug, Clone)]
pub struct QrCodeConfig {
    pub enabled: bool,
    pub content: String,
}

/// Portability configuration
#[derive(Debug, Clone)]
pub struct PortabilityConfig {
    /// Export formats supported
    pub export_formats: Vec<String>,
    /// Who this credential can be shared with
    pub shareable_with: Vec<String>,
}

/// Schema for credential subject
#[derive(Debug, Clone)]
pub struct CredentialSchema {
    pub schema_type: String,
    /// Subject properties, by name, in the order they were written
    pub properties: Vec<(String, CredentialProperty)>,
}

/// Credential subject definition
#[derive(Debug, Clone)]
pub struct CredentialSubject {
    pub schema: CredentialSchema,
}

/// Specification for a credential
#[derive(Debug, Clone)]
pub struct CredentialSpec {
    /// W3C Verifiable Credential type
    pub credential_type: String,
    /// Issuer information
    pub issuer: Authority,
    /// Credential subject schema
    pub credential_subject: CredentialSubject,
    /// Issuance conditions
    pub issuance_conditions: Vec<IssuanceCondition>,
    /// Cryptographic proof configuration
    pub proof: Option<ProofConfig>,
    /// Revocation configuration
    pub revocation: Option<RevocationConfig>,
    /// Display configuration
    pub display: Option<DisplayConfig>,
    /// Portability configuration
    pub portability: Option<PortabilityConfig>,
}

/// Credential definition
#[derive(Debug, Clone)]
pub struct Credential {
    pub api_version: ApiVersion,
    /// Always "Credential"
    pub kind: String,
    pub metadata: Metadata,
    pub spec: CredentialSpec,
}

}
