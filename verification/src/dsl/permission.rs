//! Permission definitions: default policy, effects, resources, conditions and auditing.

use vstd::prelude::*;
use crate::dsl::metadata::ApiVersion;
use crate::dsl::model::Metadata;

verus! {

#[derive(Debug, Clone, Copy, PartialEq, Eq, Structural)]
pub enum DefaultPolicy {
    Allow,
    Deny,
}

#[derive(Debug, Clone, PartialEq, Eq)]
pub enum Effect {
    Allow,
    Deny,
}

/// Resources the rule applies to
#[derive(Debug, Clone)]
pub enum Resources {
    /// Wildcard - all resources
    Wildcard(Vec<String>),
    /// Specific resources
    Specific {
        models: Vec<String>,
        fields: Vec<String>,
        workflows: Vec<String>,
        transitions: Vec<String>,
    },
}

/// Condition that must be met for rule to apply
#[derive(Debug, Clone)]
pub struct Condition {
    pub condition_type: ConditionType,
    pub value: Option<String>,
    pub purpose: Option<String>,
    pub granted_by: Option<String>,
}

#[derive(Debug, Clone, PartialEq, Eq)]
pub enum ConditionType {
    Expression,
    Consent,
    Time,
}

/// Audit configuration
#[derive(Debug, Clone)]
pub struct AuditConfig {
    pub log_all_access: bool,
    pub log_denials: bool,
    /// Actions that are considered sensitive and should always be logged
    pub sensitive_actions: Vec<String>,
    /// Audit log retention period (ISO 8601 duration)
    pub retention_period: String,
}

/// The default policy when no rule applies: deny.
pub fn default_deny() -> (r: DefaultPolicy)
    ensures
        r == DefaultPolicy::Deny,
{
    DefaultPolicy::Deny
}

/// Role definition
#[derive(Debug, Clone)]
pub struct Role {
    pub description: String,
    /// Roles this role inherits from
    pub inherits: Vec<String>,
    /// Attributes associated with this role, by name
    pub attributes: Vec<(String, String)>,
}

/// Principals (who the rule applies to)
#[derive(Debug, Clone)]
pub struct Principals {
    /// Roles
    pub roles: Vec<String>,
    /// Authorities (DIDs)
    pub authorities: Vec<String>,
    /// Attributes to exclude, by name
    pub exclude_attributes: Vec<(String, String)>,
}

/// Access control rule
#[derive(Debug, Clone)]
pub struct Rule {
    pub name: String,
    pub description: Option<String>,
    /// Effect of this rule (allow or deny)
    pub effect: Effect,
    /// Principals this rule applies to
    pub principals: Principals,
    /// Actions this rule applies to
    pub actions: Vec<String>,
    /// Resources this rule applies to
    pub resources: Resources,
    /// Conditions that must be met
    pub conditions: Vec<Condition>,
}

/// Specification for permissions
#[derive(Debug, Clone)]
pub struct PermissionSpec {
    /// Role definitions, by name
    pub roles: Vec<(String, Role)>,
    /// Access control rules
    pub rules: Vec<Rule>,
    /// Default policy (allow or deny)
    pub default: DefaultPolicy,
    /// Audit configuration
    pub audit: Option<AuditConfig>,
}

/// Permission definition
#[derive(Debug, Clone)]
pub struct Permission {
    pub api_version: ApiVersion,
    /// Always "Permission"
    pub kind: String,
    pub metadata: Metadata,
    pub spec: PermissionSpec,
}

}
