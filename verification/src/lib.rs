//! Structural code-analysis library: runtime configuration, result caches,
//! structural fingerprints, a plain-value model of syntax trees and the
//! extractors and framework detectors that walk it.

pub mod analysis;
pub mod cache;
pub mod config;
pub mod context;
pub mod extraction;
pub mod extractors;
pub mod frameworks;
pub mod hashing;
pub mod positions;
pub mod shared;
pub mod syntax;
pub mod text;
pub mod visit;
