//! Error values for validation, authorization, resources, platform calls,
//! timeouts and sanitization.

use vstd::prelude::*;

use crate::text::{append_str, to_decimal_i32, to_decimal_u64};

verus! {

/// Everything that can go wrong while validating, routing or delivering a
/// notification.
#[derive(Debug, Clone)]
pub enum NotificationError {
    /// A native platform API call failed.
    PlatformError { platform: String, error_code: Option<i32>, message: String },
    /// The content broke a validation rule.
    ValidationError { field: String, message: String },
    /// The platform denied or requires a permission.
    AuthorizationError { platform: String, required_permission: String },
    /// A file, download or other resource was missing or unusable.
    ResourceError { resource_type: String, resource_id: String, message: String },
    /// An operation exceeded its deadline, given in milliseconds.
    TimeoutError { operation: String, timeout_millis: u64 },
    /// A limit on a system resource was exceeded.
    ResourceExhausted { resource_type: String, limit: usize, requested: usize },
    /// Downstream text processing failed.
    SanitizationError { content_type: String, message: String },
}

impl NotificationError {
    /// A human-readable description of the error.
    pub fn message(&self) -> String {
        let mut out: String = String::new();
        match self {
            NotificationError::PlatformError { platform, error_code, message } => {
                append_str(&mut out, "Platform error on ");
                append_str(&mut out, platform.as_str());
                append_str(&mut out, ": ");
                append_str(&mut out, message.as_str());
                match error_code {
                    Some(code) => {
                        append_str(&mut out, " (code: ");
                        let code_text: String = to_decimal_i32(*code);
                        append_str(&mut out, code_text.as_str());
                        append_str(&mut out, ")");
                    },
                    None => {},
                }
            },
            NotificationError::ValidationError { field, message } => {
                append_str(&mut out, "Validation error in ");
                append_str(&mut out, field.as_str());
                append_str(&mut out, ": ");
                append_str(&mut out, message.as_str());
            },
            NotificationError::AuthorizationError { platform, required_permission } => {
                append_str(&mut out, "Authorization error on ");
                append_str(&mut out, platform.as_str());
                append_str(&mut out, ": missing permission ");
                append_str(&mut out, required_permission.as_str());
            },
            NotificationError::ResourceError { resource_type, resource_id, message } => {
                append_str(&mut out, "Resource error with ");
                append_str(&mut out, resource_type.as_str());
                append_str(&mut out, " '");
                append_str(&mut out, resource_id.as_str());
                append_str(&mut out, "': ");
                append_str(&mut out, message.as_str());
            },
            NotificationError::TimeoutError { operation, timeout_millis } => {
                append_str(&mut out, "Timeout error in ");
                append_str(&mut out, operation.as_str());
                append_str(&mut out, " after ");
                let ms_text: String = to_decimal_u64(*timeout_millis);
                append_str(&mut out, ms_text.as_str());
                append_str(&mut out, "ms");
            },
            NotificationError::ResourceExhausted { resource_type, limit, requested } => {
                append_str(&mut out, "Resource exhausted: ");
                append_str(&mut out, resource_type.as_str());
                append_str(&mut out, " limit ");
                let limit_text: String = to_decimal_u64(*limit as u64);
                append_str(&mut out, limit_text.as_str());
                append_str(&mut out, " exceeded (requested ");
                let requested_text: String = to_decimal_u64(*requested as u64);
                append_str(&mut out, requested_text.as_str());
                append_str(&mut out, ")");
            },
            NotificationError::SanitizationError { content_type, message } => {
                append_str(&mut out, "Sanitization error for ");
                append_str(&mut out, content_type.as_str());
                append_str(&mut out, ": ");
                append_str(&mut out, message.as_str());
            },
        }
        out
    }
}

/// Result type used throughout the library.
pub type NotificationResult<T> = Result<T, NotificationError>;

/// Why `build` refused to produce a notification.
#[derive(Debug, Clone)]
pub enum NotificationBuildError {
    /// No content was supplied.
    MissingContent,
    /// The title is empty.
    MissingTitle,
    /// The target platform list is empty.
    NoPlatforms,
    /// Content validation failed.
    ValidationError(NotificationError),
    /// The title exceeds a platform's limit (lengths in characters).
    TitleTooLong { platform: String, length: usize, max: usize },
    /// The body exceeds a platform's limit (lengths in characters).
    BodyTooLong { platform: String, length: usize, max: usize },
}

impl NotificationBuildError {
    /// A human-readable description of the error.
    pub fn message(&self) -> String {
        let mut out: String = String::new();
        match self {
            NotificationBuildError::MissingContent => {
                append_str(&mut out, "Notification content is required");
            },
            NotificationBuildError::MissingTitle => {
                append_str(&mut out, "Title is required and cannot be empty");
            },
            NotificationBuildError::NoPlatforms => {
                append_str(&mut out, "At least one target platform is required");
            },
            NotificationBuildError::ValidationError(inner) => {
                append_str(&mut out, "Content validation failed: ");
                let inner_text: String = inner.message();
                append_str(&mut out, inner_text.as_str());
            },
            NotificationBuildError::TitleTooLong { platform, length, max } => {
                append_str(&mut out, "Title exceeds maximum length for ");
                append_str(&mut out, platform.as_str());
                append_str(&mut out, ": ");
                let length_text: String = to_decimal_u64(*length as u64);
                append_str(&mut out, length_text.as_str());
                append_str(&mut out, " > ");
                let max_text: String = to_decimal_u64(*max as u64);
                append_str(&mut out, max_text.as_str());
            },
            NotificationBuildError::BodyTooLong { platform, length, max } => {
                append_str(&mut out, "Body exceeds maximum length for ");
                append_str(&mut out, platform.as_str());
                append_str(&mut out, ": ");
                let length_text: String = to_decimal_u64(*length as u64);
                append_str(&mut out, length_text.as_str());
                append_str(&mut out, " > ");
                let max_text: String = to_decimal_u64(*max as u64);
                append_str(&mut out, max_text.as_str());
            },
        }
        out
    }
}

} // verus!
