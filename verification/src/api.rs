//! The backend capability interface: one stateless request/response call
//! from (system prompt, visible messages) to text plus stop reason and
//! usage, or a typed error.

use vstd::prelude::*;
use crate::content::Message;

verus! {

/// Why a single completion call ended: a natural finish, or truncation by
/// the output-length limit (which calls for continuation).
#[derive(Debug, Clone, Copy, PartialEq, Eq, Structural)]
pub enum StopReason {
    EndTurn,
    MaxTokens,
}

/// Token accounting reported by the backend for one call.
#[derive(Debug, Clone, Copy, PartialEq, Eq, Structural)]
pub struct Usage {
    pub n_input_tokens: usize,
    pub n_output_tokens: usize,
}

/// A successful backend reply.
#[derive(Debug)]
pub struct ApiResponse {
    pub resp: String,
    pub stop_reason: StopReason,
    pub usage: Usage,
}

/// The error taxonomy of the backend interface.
///
/// `RateLimitExceeded` and `OverloadedError` are retried with backoff for
/// a bounded time; every other variant is surfaced immediately.
#[derive(Debug, Clone, Copy, PartialEq, Eq, Structural)]
pub enum LLMApiError {
    NetworkError,
    ParseError,
    InvalidRequestError,
    AuthenticationError,
    PermissionError,
    NotFoundError,
    RequestTooLarge,
    RateLimitExceeded,
    ApiError,
    OverloadedError,
    Other,
}

/// Whether an error is retried with backoff rather than surfaced at once.
pub open spec fn spec_retryable(e: LLMApiError) -> bool {
    e == LLMApiError::RateLimitExceeded || e == LLMApiError::OverloadedError
}

impl LLMApiError {
    /// Whether this error is retried with backoff rather than surfaced at
    /// once.
    pub fn is_retryable(&self) -> (r: bool)
        ensures
            r == spec_retryable(*self),
    {
        match self {
            LLMApiError::RateLimitExceeded => true,
            LLMApiError::OverloadedError => true,
            _ => false,
        }
    }

    /// A fixed human-readable description of the error.
    pub fn describe(&self) -> (r: &'static str)
        ensures
            r@ == match self {
                LLMApiError::NetworkError => "Network error"@,
                LLMApiError::ParseError => "Parse error"@,
                LLMApiError::InvalidRequestError => "Invalid request error"@,
                LLMApiError::AuthenticationError => "Authentication error"@,
                LLMApiError::PermissionError => "Permission error"@,
                LLMApiError::NotFoundError => "Resource not found"@,
                LLMApiError::RequestTooLarge => "Request too large"@,
                LLMApiError::RateLimitExceeded => "Rate limit exceeded"@,
                LLMApiError::ApiError => "API error"@,
                LLMApiError::OverloadedError => "Service overloaded"@,
                LLMApiError::Other => "Unknown error"@,
            },
    {
        match self {
            LLMApiError::NetworkError => "Network error",
            LLMApiError::ParseError => "Parse error",
            LLMApiError::InvalidRequestError => "Invalid request error",
            LLMApiError::AuthenticationError => "Authentication error",
            LLMApiError::PermissionError => "Permission error",
            LLMApiError::NotFoundError => "Resource not found",
            LLMApiError::RequestTooLarge => "Request too large",
            LLMApiError::RateLimitExceeded => "Rate limit exceeded",
            LLMApiError::ApiError => "API error",
            LLMApiError::OverloadedError => "Service overloaded",
            LLMApiError::Other => "Unknown error",
        }
    }
}

/// A completion backend. Implementations live outside the library (they
/// speak a concrete wire format); the agent loop is verified for every
/// possible behaviour of `prompt`, so the trait promises nothing.
pub trait LLMApi {
    /// One completion call over the given system prompt and messages.
    /// The adapter is stateless beyond its configuration, so it takes
    /// itself by shared reference and may be invoked repeatedly.
    fn prompt(&self, system_msg: &str, msgs: Vec<Message>) -> Result<ApiResponse, LLMApiError>;

    /// The combined input+output token budget of the backend's model.
    fn max_context_tokens(&self) -> usize;
}

} // verus!
