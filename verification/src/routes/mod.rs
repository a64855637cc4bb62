//! The endpoints of the client API.

pub mod health;
pub mod models;
pub mod response_state;
pub mod responses;
