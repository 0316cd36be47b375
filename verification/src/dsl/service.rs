//! Service definitions: the models, workflows and credentials a service uses
//! and its payment, notification, federation and accessibility settings.

use vstd::prelude::*;

verus! {

/// Specification for a service
#[derive(Debug, Clone)]
pub struct ServiceSpec {
    /// References to data models used by this service
    pub models: Vec<String>,
    /// References to workflows
    pub workflows: Vec<String>,
    /// References to credentials that can be issued
    pub credentials: Vec<String>,
    /// Service-level configuration
    pub config: Option<ServiceConfig>,
}

/// Service configuration
#[derive(Debug, Clone)]
pub struct ServiceConfig {
    /// Payment configuration
    pub payment: Option<PaymentConfig>,
    /// Notification settings
    pub notifications: Option<NotificationConfig>,
    /// Inter-authority data requests
    pub federated_requests: Vec<FederatedRequest>,
    /// Accessibility settings
    pub accessibility: Option<AccessibilityConfig>,
}

/// Payment configuration
#[derive(Debug, Clone)]
pub struct PaymentConfig {
    pub enabled: bool,
    pub provider: Option<String>,
    pub fees: Vec<Fee>,
}

/// Fee definition
#[derive(Debug, Clone)]
pub struct Fee {
    pub fee_type: String,
    /// Amount in cents
    pub amount: u64,
    pub currency: String,
    pub description: Option<String>,
}

/// Notification configuration
#[derive(Debug, Clone)]
pub struct NotificationConfig {
    pub email: Option<EmailConfig>,
    pub sms: Option<SmsConfig>,
}

#[derive(Debug, Clone)]
pub struct EmailConfig {
    pub enabled: bool,
    pub templates: Vec<String>,
}

#[derive(Debug, Clone)]
pub struct SmsConfig {
    pub enabled: bool,
}

/// Federated request configuration
#[derive(Debug, Clone)]
pub struct FederatedRequest {
    pub service: String,
    pub authority: String, // DID
    pub purpose: String,
    pub required_consent: bool,
}

/// Accessibility configuration
#[derive(Debug, Clone)]
pub struct AccessibilityConfig {
    pub wcag_level: String,
    pub bitv_compliant: bool,
    pub languages: Vec<String>,
}

}
