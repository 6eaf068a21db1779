//! Typed error details for gRPC statuses, with a verified wire codec.
//!
//! A failure status may carry a payload with a list of tagged blobs, each
//! one a record of a fixed catalog of ten kinds. This crate holds those
//! records, their byte encoding, and the two ways to hold many of them: a
//! set with one slot per kind ([`ErrorDetails`]) and an ordered list of
//! [`ErrorDetail`]. [`WithErrorDetails`] packs either into a `tonic::Status`
//! and finds them in it again.
//!
//! What the encoders write and what the decoders accept is stated as
//! mathematical functions on bytes, and the code is proved against them; so
//! is the law that decoding undoes encoding.

pub mod duration;
pub mod error;
pub mod error_details;
pub mod error_details_vec;
pub mod laws;
pub mod message;
pub mod status;
pub mod status_message;
pub mod std_messages;
pub mod wire;

pub use error::DecodeFailure;
pub use error::EncodeFailure;
pub use error_details::ErrorDetails;
pub use error_details_vec::ErrorDetail;
pub use error_details_vec::Kind;
pub use status::WithErrorDetails;
pub use std_messages::BadRequest;
pub use std_messages::DebugInfo;
pub use std_messages::ErrorInfo;
pub use std_messages::FieldViolation;
pub use std_messages::Help;
pub use std_messages::HelpLink;
pub use std_messages::LocalizedMessage;
pub use std_messages::PreconditionFailure;
pub use std_messages::PreconditionViolation;
pub use std_messages::QuotaFailure;
pub use std_messages::QuotaViolation;
pub use std_messages::RequestInfo;
pub use std_messages::ResourceInfo;
pub use std_messages::RetryInfo;
