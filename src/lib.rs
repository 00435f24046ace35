//! A frame-stepped visual-effects engine: particles, growing vines and
//! lightning bolts. The library keeps every discrete decision (lifetimes,
//! growth budgets, capacity eviction, random draws, colours); the continuous
//! geometry is a type parameter supplied by the host.
pub mod bloom;
pub mod capacity;
pub mod color;
pub mod lightning;
pub mod particle;
pub mod random;
pub mod vine;
