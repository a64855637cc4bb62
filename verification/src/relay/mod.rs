//! The data plane: what happens to a request between the client and the
//! upstream targets of its route.

pub mod request;
pub mod target;
pub mod context;
pub mod upstream;
pub mod continuation;
pub mod response;
pub mod persist;
pub mod attempt;
pub mod selection;
pub mod streaming;
pub mod probe;
pub mod compaction;
pub mod archive;
