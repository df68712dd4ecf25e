//! What the local HTTP service decides about its requests.

pub mod files;
pub mod headers;
pub mod health;
pub mod notify;
