//! An ICE agent for a peer-to-peer stack, with a small latency estimator.

pub mod ice;
pub mod latency;
