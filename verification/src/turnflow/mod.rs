//! The turn flow: dice, the world-changing game commands, and the agentic
//! GM loop's decisions.

pub mod domain;
pub mod service;
