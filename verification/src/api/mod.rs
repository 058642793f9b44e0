//! Request bodies and small helpers of the local HTTP API.
pub mod dto;
pub mod util;
pub mod error;
