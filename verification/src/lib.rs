//! Turns host load readings into colours for addressable LEDs.
//!
//! A reading is an exact fraction; every colour is computed from it in
//! integer arithmetic, so each result is stated and proved exactly.

pub mod color;
pub mod fraction;
pub mod blend;
pub mod pattern;
pub mod ring;
pub mod window;
pub mod sampler;
pub mod recipe;
pub mod dispatch;
