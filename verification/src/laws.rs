//! What the parts of the agent do, in the plainest terms: over characters and
//! their positions, over numbers, and over the very words that are looked for.

pub mod calls;
pub mod control_plane;
pub mod decisions;
pub mod documents;
pub mod matching;
pub mod networks;
pub mod operations;
pub mod pages;
pub mod passports;
pub mod rates;
pub mod schedule;
pub mod screening;
pub mod signals;
pub mod texts;
pub mod visits;
