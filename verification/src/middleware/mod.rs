//! What is checked of a request before it is handled.

pub mod admin_auth;
pub mod admin_origin;
pub mod auth;
pub mod headers;
pub mod logging;
pub mod request_id;
