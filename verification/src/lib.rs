//! Verified core of a Hyprland computer-use harness: coordinate geometry,
//! input safety policy, rate limiting, key normalisation, PNG header parsing,
//! sequence planning and the small text protocols spoken to Hyprland and wtype.
pub mod audit;
pub mod error;
pub mod models;
pub mod text;
pub mod policy;
pub mod input;
pub mod capture;
pub mod cli;
pub mod keyboard;
pub mod sequence;
pub mod harness;
pub mod flow;
pub mod ipc;
pub mod mcp;

pub use error::{HarnessError, Result};
