//! Verified core of the request-scoring agent.

pub mod agent;
pub mod challenge;
pub mod clock;
pub mod codec;
pub mod headers;
pub mod json;
pub mod laws;
pub mod limits;
pub mod middleware;
pub mod obsidian;
pub mod outbound;
pub mod passport;
pub mod rules;
pub mod scoring;
pub mod sync;
pub mod text;
pub mod utils;

pub use agent::{Decision, RelintioAgent, RelintioConfig};
