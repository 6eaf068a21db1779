//! The ten kinds of standard error messages.

pub mod bad_request;
pub mod debug_info;
pub mod error_info;
pub mod help;
pub mod loc_message;
pub mod prec_failure;
pub mod quota_failure;
pub mod request_info;
pub mod resource_info;
pub mod retry_info;

pub use bad_request::BadRequest;
pub use bad_request::FieldViolation;
pub use debug_info::DebugInfo;
pub use error_info::ErrorInfo;
pub use help::Help;
pub use help::HelpLink;
pub use loc_message::LocalizedMessage;
pub use prec_failure::PreconditionFailure;
pub use prec_failure::PreconditionViolation;
pub use quota_failure::QuotaFailure;
pub use quota_failure::QuotaViolation;
pub use request_info::RequestInfo;
pub use resource_info::ResourceInfo;
pub use retry_info::RetryInfo;
