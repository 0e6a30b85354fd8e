//! Autoregressive text generation with a uniform top-k sampling rule.
//!
//! The library holds the decisions of a generation run: how candidates are
//! ranked and picked, how the token sequence and the output text grow, and
//! when a run is over. Scoring a sequence is left to the caller.

pub mod codec;
pub mod decoding;
pub mod error;
pub mod sampler;
