//! Verified core of a wheel packager for native extension modules: escaping
//! of distribution names and versions, compatibility-tag resolution, metadata
//! rendering, and deterministic archive planning with a digest manifest.

pub mod archive;
pub mod digest;
pub mod discovery;
pub mod escape;
pub mod metadata;
pub mod num;
pub mod sorting;
pub mod tag;
pub mod text;
