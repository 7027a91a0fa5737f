//! Settlement of a forward contract between a senior (long) and a junior
//! (short) side, with fixed-point decimal prices.
pub mod decimal;
pub mod settlement;
