//! Release resolution and installation rules for command-line tools that are
//! published as GitHub release assets, for the Linux x86_64 platform.
//!
//! The library decides and computes; it reads no file and asks no server.
//! A caller hands it what it has read (the registry, a release, the bytes
//! of a download, what stands in the scratch directory) and carries out
//! what it is told: [`update::Update`] leads one update from the question
//! for the latest release to the recorded version, with [`tool`] choosing
//! the asset, [`archive`] planning the unpacking, and [`binary`] finding
//! the executable and telling where it goes.

pub mod archive;
pub mod binary;
pub mod config;
pub mod error;
pub mod expand;
pub mod github;
pub mod paths;
pub mod platform;
pub mod seqs;
pub mod text;
pub mod tool;
pub mod update;
