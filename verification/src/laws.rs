//! What holds of the library as a whole: laws over its contracts, each in terms of what goes in
//! and what comes out.

pub mod choices;
pub mod json;
pub mod lookups;
pub mod media;
pub mod musixmatch;
pub mod numbers;
pub mod petitlyrics;
pub mod recordings;
pub mod signing_in;
pub mod sources;
pub mod spotify;
pub mod storage;
pub mod texts;
pub mod timelines;
