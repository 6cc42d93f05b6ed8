//! Verified core of `riced`, a Wayland layer-shell daemon: the command line
//! grammar and the command-file protocol, the configuration model and its
//! runtime patches, output/bar geometry, the window registry that tracks
//! every surface the daemon owns, and the small input decisions (redraw
//! scope, pointer throttling, hold detection).
//!
//! Rendering, Wayland I/O and everything that computes on floating point
//! live in the application crate around this library.

pub mod cli;
pub mod config;
pub mod geometry;
pub mod layers;
pub mod table;
pub mod registry;
pub mod plots;
pub mod input;
