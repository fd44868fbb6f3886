//! Failure taxonomy of the surveillance backend.
//!
//! Every operation reports failure as a typed [`SurveillanceError`]; the
//! severity classification exists for the host shell's alerting policy only
//! and never drives control flow.

use vstd::prelude::*;
use vstd::string::StringExecFns;

verus! {

/// The kinds of failure the backend reports to its callers.
#[derive(Debug, PartialEq)]
pub enum SurveillanceError {
    AuthError { message: String },
    ConfigError { message: String },
    RtspError { message: String },
    NetworkError { message: String },
    FileSystemError { message: String },
    JsonError { message: String },
    PermissionDenied,
    UserNotFound,
    InvalidCredentials,
    CameraUnavailable { camera_id: u32 },
    ConnectionTimeout,
    InternalError { message: String },
}

/// Severity of a failure, for the log sink and alerting policy.
#[derive(Debug, Clone, Copy, PartialEq, Eq, Structural)]
pub enum ErrorSeverity {
    Info,
    Warning,
    Error,
    Critical,
}

impl Clone for SurveillanceError {
    fn clone(&self) -> (r: Self)
        ensures
            r == *self,
    {
        match self {
            SurveillanceError::AuthError { message } => SurveillanceError::AuthError {
                message: message.clone(),
            },
            SurveillanceError::ConfigError { message } => SurveillanceError::ConfigError {
                message: message.clone(),
            },
            SurveillanceError::RtspError { message } => SurveillanceError::RtspError {
                message: message.clone(),
            },
            SurveillanceError::NetworkError { message } => SurveillanceError::NetworkError {
                message: message.clone(),
            },
            SurveillanceError::FileSystemError { message } => SurveillanceError::FileSystemError {
                message: message.clone(),
            },
            SurveillanceError::JsonError { message } => SurveillanceError::JsonError {
                message: message.clone(),
            },
            SurveillanceError::PermissionDenied => SurveillanceError::PermissionDenied,
            SurveillanceError::UserNotFound => SurveillanceError::UserNotFound,
            SurveillanceError::InvalidCredentials => SurveillanceError::InvalidCredentials,
            SurveillanceError::CameraUnavailable { camera_id } => SurveillanceError::CameraUnavailable {
                camera_id: *camera_id,
            },
            SurveillanceError::ConnectionTimeout => SurveillanceError::ConnectionTimeout,
            SurveillanceError::InternalError { message } => SurveillanceError::InternalError {
                message: message.clone(),
            },
        }
    }
}

impl SurveillanceError {
    /// An authorization failure carrying `message`.
    pub fn auth_error(message: &str) -> (r: Self)
        ensures
            r matches SurveillanceError::AuthError { message: m } && m@ == message@,
    {
        SurveillanceError::AuthError { message: String::from_str(message) }
    }

    /// A configuration-integrity failure carrying `message`.
    pub fn config_error(message: &str) -> (r: Self)
        ensures
            r matches SurveillanceError::ConfigError { message: m } && m@ == message@,
    {
        SurveillanceError::ConfigError { message: String::from_str(message) }
    }

    /// A video-transport failure carrying `message`.
    pub fn rtsp_error(message: &str) -> (r: Self)
        ensures
            r matches SurveillanceError::RtspError { message: m } && m@ == message@,
    {
        SurveillanceError::RtspError { message: String::from_str(message) }
    }

    /// A network failure carrying `message`.
    pub fn network_error(message: &str) -> (r: Self)
        ensures
            r matches SurveillanceError::NetworkError { message: m } && m@ == message@,
    {
        SurveillanceError::NetworkError { message: String::from_str(message) }
    }

    /// A file-system failure carrying `message`.
    pub fn filesystem_error(message: &str) -> (r: Self)
        ensures
            r matches SurveillanceError::FileSystemError { message: m } && m@ == message@,
    {
        SurveillanceError::FileSystemError { message: String::from_str(message) }
    }

    /// A serialization-format failure carrying `message`.
    pub fn json_error(message: &str) -> (r: Self)
        ensures
            r matches SurveillanceError::JsonError { message: m } && m@ == message@,
    {
        SurveillanceError::JsonError { message: String::from_str(message) }
    }

    /// An internal failure carrying `message`.
    pub fn internal_error(message: &str) -> (r: Self)
        ensures
            r matches SurveillanceError::InternalError { message: m } && m@ == message@,
    {
        SurveillanceError::InternalError { message: String::from_str(message) }
    }

    /// The numeric code a host shell sees for this failure.
    pub fn error_code(&self) -> (r: u32)
        ensures
            r == self.spec_error_code(),
    {
        match self {
            SurveillanceError::AuthError { .. } => 1001,
            SurveillanceError::ConfigError { .. } => 1002,
            SurveillanceError::RtspError { .. } => 1003,
            SurveillanceError::NetworkError { .. } => 1004,
            SurveillanceError::FileSystemError { .. } => 1005,
            SurveillanceError::JsonError { .. } => 1006,
            SurveillanceError::PermissionDenied => 1007,
            SurveillanceError::UserNotFound => 1008,
            SurveillanceError::InvalidCredentials => 1009,
            SurveillanceError::CameraUnavailable { .. } => 1010,
            SurveillanceError::ConnectionTimeout => 1011,
            SurveillanceError::InternalError { .. } => 9999,
        }
    }

    /// The code of each failure kind, as a specification-level map.
    pub open spec fn spec_error_code(&self) -> u32 {
        match self {
            SurveillanceError::AuthError { .. } => 1001u32,
            SurveillanceError::ConfigError { .. } => 1002,
            SurveillanceError::RtspError { .. } => 1003,
            SurveillanceError::NetworkError { .. } => 1004,
            SurveillanceError::FileSystemError { .. } => 1005,
            SurveillanceError::JsonError { .. } => 1006,
            SurveillanceError::PermissionDenied => 1007,
            SurveillanceError::UserNotFound => 1008,
            SurveillanceError::InvalidCredentials => 1009,
            SurveillanceError::CameraUnavailable { .. } => 1010,
            SurveillanceError::ConnectionTimeout => 1011,
            SurveillanceError::InternalError { .. } => 9999,
        }
    }

    /// Whether the failure is critical: exactly the internal and
    /// file-system failures are.
    pub fn is_critical(&self) -> (r: bool)
        ensures
            r == (self is InternalError || self is FileSystemError),
    {
        match self {
            SurveillanceError::InternalError { .. } => true,
            SurveillanceError::FileSystemError { .. } => true,
            _ => false,
        }
    }

    /// The severity class of this failure.
    pub fn severity(&self) -> (r: ErrorSeverity)
        ensures
            r == self.spec_severity(),
    {
        match self {
            SurveillanceError::AuthError { .. } => ErrorSeverity::Warning,
            SurveillanceError::ConfigError { .. } => ErrorSeverity::Error,
            SurveillanceError::RtspError { .. } => ErrorSeverity::Warning,
            SurveillanceError::NetworkError { .. } => ErrorSeverity::Warning,
            SurveillanceError::FileSystemError { .. } => ErrorSeverity::Critical,
            SurveillanceError::JsonError { .. } => ErrorSeverity::Error,
            SurveillanceError::PermissionDenied => ErrorSeverity::Warning,
            SurveillanceError::UserNotFound => ErrorSeverity::Info,
            SurveillanceError::InvalidCredentials => ErrorSeverity::Warning,
            SurveillanceError::CameraUnavailable { .. } => ErrorSeverity::Info,
            SurveillanceError::ConnectionTimeout => ErrorSeverity::Warning,
            SurveillanceError::InternalError { .. } => ErrorSeverity::Critical,
        }
    }

    /// The severity of each failure kind, as a specification-level map.
    pub open spec fn spec_severity(&self) -> ErrorSeverity {
        match self {
            SurveillanceError::AuthError { .. } => ErrorSeverity::Warning,
            SurveillanceError::ConfigError { .. } => ErrorSeverity::Error,
            SurveillanceError::RtspError { .. } => ErrorSeverity::Warning,
            SurveillanceError::NetworkError { .. } => ErrorSeverity::Warning,
            SurveillanceError::FileSystemError { .. } => ErrorSeverity::Critical,
            SurveillanceError::JsonError { .. } => ErrorSeverity::Error,
            SurveillanceError::PermissionDenied => ErrorSeverity::Warning,
            SurveillanceError::UserNotFound => ErrorSeverity::Info,
            SurveillanceError::InvalidCredentials => ErrorSeverity::Warning,
            SurveillanceError::CameraUnavailable { .. } => ErrorSeverity::Info,
            SurveillanceError::ConnectionTimeout => ErrorSeverity::Warning,
            SurveillanceError::InternalError { .. } => ErrorSeverity::Critical,
        }
    }
}

} // verus!
