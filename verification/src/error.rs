//! Error kinds of the caching and request-governance core, with their
//! JSON-RPC codes and display strings.

use crate::text::{i32_to_string, spec_dec_int};
use vstd::prelude::*;

verus! {

/// Everything that can go wrong in the core: upstream failures, invalid
/// request parameters, cache faults, and configuration defects.
#[derive(Debug, Clone)]
pub enum TraderGraderError {
    /// The upstream API answered with a non-success status.
    EsiApiError { message: String },
    /// A request named a region that cannot exist.
    InvalidRegionId { region_id: i32 },
    /// A request named an item type that cannot exist.
    InvalidTypeId { type_id: i32 },
    /// The transport below the upstream call failed.
    NetworkError(String),
    /// A response body could not be read as the expected value.
    JsonError(String),
    /// A cache operation failed visibly: encoding for storage, or the
    /// backend's self-test.
    CacheError { message: String },
    /// The outbound request rate was exceeded beyond recovery.
    RateLimitError(String),
    /// The upstream rejected the request's credentials.
    AuthenticationError(String),
    /// An invalid configuration or another internal defect.
    InternalError(String),
}

/// The JSON-RPC error code each kind maps to.
pub open spec fn spec_rpc_code(e: TraderGraderError) -> i32 {
    match e {
        TraderGraderError::EsiApiError { .. } => -32603i32,
        TraderGraderError::InvalidRegionId { .. } => -32602i32,
        TraderGraderError::InvalidTypeId { .. } => -32602i32,
        TraderGraderError::NetworkError(..) => -32603i32,
        TraderGraderError::JsonError(..) => -32700i32,
        TraderGraderError::CacheError { .. } => -32603i32,
        TraderGraderError::RateLimitError(..) => -32000i32,
        TraderGraderError::AuthenticationError(..) => -32001i32,
        TraderGraderError::InternalError(..) => -32603i32,
    }
}

/// The display string of each kind: a fixed prefix naming the kind, then
/// what the variant carries.
pub open spec fn spec_error_message(e: TraderGraderError) -> Seq<char> {
    match e {
        TraderGraderError::EsiApiError { message } => "EVE ESI API error: "@ + message@,
        TraderGraderError::InvalidRegionId { region_id } => "Invalid region ID: "@ + spec_dec_int(
            region_id as int,
        ),
        TraderGraderError::InvalidTypeId { type_id } => "Invalid type ID: "@ + spec_dec_int(
            type_id as int,
        ),
        TraderGraderError::NetworkError(m) => "Network error: "@ + m@,
        TraderGraderError::JsonError(m) => "JSON parsing error: "@ + m@,
        TraderGraderError::CacheError { message } => "Cache error: "@ + message@,
        TraderGraderError::RateLimitError(m) => "Rate limit exceeded: "@ + m@,
        TraderGraderError::AuthenticationError(m) => "Authentication error: "@ + m@,
        TraderGraderError::InternalError(m) => "Internal server error: "@ + m@,
    }
}

impl TraderGraderError {
    /// The JSON-RPC error code for this error.
    pub fn to_rpc_code(&self) -> (r: i32)
        ensures
            r == spec_rpc_code(*self),
    {
        match self {
            TraderGraderError::EsiApiError { .. } => -32603,
            TraderGraderError::InvalidRegionId { .. } => -32602,
            TraderGraderError::InvalidTypeId { .. } => -32602,
            TraderGraderError::NetworkError(..) => -32603,
            TraderGraderError::JsonError(..) => -32700,
            TraderGraderError::CacheError { .. } => -32603,
            TraderGraderError::RateLimitError(..) => -32000,
            TraderGraderError::AuthenticationError(..) => -32001,
            TraderGraderError::InternalError(..) => -32603,
        }
    }

    /// The display string of this error.
    pub fn message(&self) -> (r: String)
        ensures
            r@ == spec_error_message(*self),
    {
        match self {
            TraderGraderError::EsiApiError { message } => String::from_str(
                "EVE ESI API error: ",
            ).concat(message.as_str()),
            TraderGraderError::InvalidRegionId { region_id } => {
                let id = i32_to_string(*region_id);
                String::from_str("Invalid region ID: ").concat(id.as_str())
            },
            TraderGraderError::InvalidTypeId { type_id } => {
                let id = i32_to_string(*type_id);
                String::from_str("Invalid type ID: ").concat(id.as_str())
            },
            TraderGraderError::NetworkError(m) => String::from_str("Network error: ").concat(
                m.as_str(),
            ),
            TraderGraderError::JsonError(m) => String::from_str("JSON parsing error: ").concat(
                m.as_str(),
            ),
            TraderGraderError::CacheError { message } => String::from_str("Cache error: ").concat(
                message.as_str(),
            ),
            TraderGraderError::RateLimitError(m) => String::from_str(
                "Rate limit exceeded: ",
            ).concat(m.as_str()),
            TraderGraderError::AuthenticationError(m) => String::from_str(
                "Authentication error: ",
            ).concat(m.as_str()),
            TraderGraderError::InternalError(m) => String::from_str(
                "Internal server error: ",
            ).concat(m.as_str()),
        }
    }
}

impl From<String> for TraderGraderError {
    /// Wrap a bare message as an internal error.
    fn from(message: String) -> (r: TraderGraderError) {
        TraderGraderError::InternalError(message)
    }
}

impl vstd::std_specs::convert::FromSpecImpl<String> for TraderGraderError {
    open spec fn obeys_from_spec() -> bool {
        true
    }

    open spec fn from_spec(message: String) -> TraderGraderError {
        TraderGraderError::InternalError(message)
    }
}

impl From<&str> for TraderGraderError {
    /// Wrap a bare message as an internal error.
    fn from(message: &str) -> (r: TraderGraderError) {
        TraderGraderError::InternalError(String::from_str(message))
    }
}

impl vstd::std_specs::convert::FromSpecImpl<&str> for TraderGraderError {
    open spec fn obeys_from_spec() -> bool {
        false
    }

    open spec fn from_spec(message: &str) -> TraderGraderError {
        TraderGraderError::InternalError(vstd::pervasive::arbitrary())
    }
}

} // verus!
