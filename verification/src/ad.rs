//! Ad resolution: the VAST response model, media-file selection,
//! providers (static, VAST, slate), creative conditioning, tracking and
//! the HLS ad interleaver.

pub mod conditioning;
pub mod interleaver;
pub mod provider;
pub mod slate;
pub mod tracking;
pub mod vast;
pub mod vast_parse;
pub mod vast_provider;
