//! Real-time core of a sound-reactive / button-driven light: a smoothing and
//! threshold pipeline over captured audio frames, a drop-oldest capture ring,
//! a single-slot latest-value signal, an edge detector for a polled input and
//! a model of a two-tier (Normal / Elevated) cooperative scheduler.
pub mod capture;
pub mod color;
pub mod control;
pub mod filter;
pub mod pipeline;
pub mod scheduler;
pub mod signal;
