//! Reconciliation of slicer filament profiles with a remote filament pool.
//!
//! The engine decides, field by field, which side of a (profile, pool record)
//! pair is authoritative, and records the outcome in the profile's notes.
pub mod model;
pub mod fields;
pub mod merge;
pub mod printer;
pub mod engine;
pub mod codec;
pub mod laws;
