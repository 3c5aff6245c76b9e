//! Version resolution and build configuration selection for generated
//! binding crates.
//!
//! A generated binding crate embeds a registry of "known targets": the
//! native-library versions (and platform conditions, and build parameters)
//! it was generated against. At build time the installed library version
//! rarely matches one of those exactly. This crate picks the closest
//! compatible known version under deterministic tie-break rules, filters
//! the registry by platform applicability, and merges the chosen entry's
//! path templates with the concrete paths reported by the installation
//! probe into a single resolved build configuration.

pub mod condition;
pub mod errors;
pub mod merge;
pub mod orchestrate;
pub mod registry;
pub mod resolver;
pub mod version;

pub use version::Version;
