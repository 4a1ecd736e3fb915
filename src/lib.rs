//! Packages compiled WebAssembly modules for the Screeps sandboxes: finds the
//! generated build outputs, checks and extracts the generated loader, writes
//! loaders for the two hosts, and resolves the deploy configuration.

pub mod config;
pub mod deploy;
pub mod extract;
pub mod locate;
pub mod paths;
pub mod pattern;
pub mod run;
pub mod synth;
pub mod text;
pub mod upload;
