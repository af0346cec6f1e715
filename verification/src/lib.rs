//! Server-side HLS/DASH ad stitcher: manifest parsing, SCTE-35 cue
//! detection, ad interleaving, HLS interstitials, VAST resolution,
//! tracking, sessions and origin-URL validation.

pub mod config;
pub mod dash;
pub mod errors;
pub mod ad;
pub mod hls;
pub mod metrics;
pub mod num;
pub mod pdt;
pub mod pipeline;
pub mod session;
pub mod text;
pub mod url_validation;

pub use errors::RitcherError;
