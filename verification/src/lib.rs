//! Sprite-atlas assembly and animation playback.
//!
//! The crate tracks a fixed set of asynchronously loading image folders,
//! packs the loaded frames into one texture atlas together with a table of
//! contiguous index ranges (one range per folder), and drives per-entity
//! frame playback: a fixed-rate tick that advances an atlas index with
//! wrap-around, and a small state machine that swaps which range an entity
//! plays and whether its sprite is flipped.

pub mod atlas;
pub mod loading;
pub mod monster;
pub mod playback;
