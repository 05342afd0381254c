//! Harmonic level tables for additive synthesis, and the manufacturer-exclusive
//! messages that send them to the instrument.

pub mod level;
pub mod message;
pub mod render;
pub mod tables;
