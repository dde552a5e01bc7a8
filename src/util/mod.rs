//! Text helpers shared by the protocol code.
pub mod color;
pub mod hash;
