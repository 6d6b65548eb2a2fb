//! A deterministic, cycle-driven emulator of a fixed neural connectivity
//! network encoded as a compact read-only table of 16-bit words ("ROM").
//!
//! Neurons hold saturating 8-bit state, muscles hold 16-bit wrapping state,
//! connections are packed two-per-word with a sign-adjusted weight and id
//! encoding, and each simulation tick performs stimulation,
//! discharge-threshold detection, connection propagation, idle-neuron decay,
//! and a synchronized state swap.

pub mod decode;
pub mod emulator;
pub mod laws;
pub mod model;
