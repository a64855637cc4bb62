//! The admin API: providers, routes and targets, and what is shown of the
//! running relay.

pub mod records;
pub mod validate;
pub mod rows;
pub mod providers;
pub mod targets;
pub mod routes;
pub mod import;
pub mod probes;
pub mod audit;
pub mod logs;
