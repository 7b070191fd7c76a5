//! Manifest model of a packaged mod and the rules that derive a manifest
//! from a resolved dependency graph.
pub mod derivation;
pub mod mod_json;
pub mod qmod;
