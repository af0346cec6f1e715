//! HLS media- and master-playlist model, codec, cue detection,
//! ad interleaving, interstitials and URL rewriting.

pub mod codec;
pub mod cue;
pub mod interstitial;
pub mod model;
pub mod parser;
