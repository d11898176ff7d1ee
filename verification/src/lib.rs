//! Host-side library for driving Lager boxes.

pub mod text;
pub mod codec;
mod error;

pub use error::{Error, Result};
pub mod json;
pub mod render;
pub mod auth;
pub mod tunnel;
pub mod wire;
pub mod transport;
pub mod nets;
pub mod client;
