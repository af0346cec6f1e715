//! DASH MPD model, SCTE-35 cue detection, ad-Period interleaving and
//! hierarchical URL rewriting.

pub mod codec;
pub mod cue;
pub mod interleaver;
pub mod model;
pub mod parser;
