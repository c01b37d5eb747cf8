//! Vanity Ed25519 key search for MeshCore: the verified core.
//!
//! The modules hold the counter-based generators, the deterministic seed
//! schedule, the prefix matcher, checkpoint records and the resource and
//! scheduling rules of the job queue.

pub mod bytes;
pub mod checkpoint;
pub mod clock;
pub mod cpu;
pub mod deterministic;
pub mod encoding;
pub mod entropy;
pub mod jobs;
pub mod models;
pub mod philox;
pub mod queue;
pub mod requests;
pub mod search;
pub mod text;
