//! Pretty-printing and naming of OpenTimestamps proofs.
//!
//! A decoded proof is a tree of steps (forks, operations and attestations).
//! The library turns such a tree into an ordered list of display records,
//! derives a content-based identifier for it, and keeps proofs in a
//! content-addressed store.

pub mod cache;
pub mod identity;
pub mod laws;
pub mod model;
pub mod outside;
pub mod render;
pub mod text;
pub mod upload;

