//! Verified core of a small backend service: configuration resolution,
//! write-buffer policy, log and response formatting, and error mapping.

pub mod buffer;
pub mod config;
pub mod errors;
pub mod logging;
pub mod login;
pub mod maintenance;
pub mod named_map;
pub mod text;
