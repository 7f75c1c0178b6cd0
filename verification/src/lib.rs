//! Core of a mutation-testing pipeline for packages written in a compiled,
//! contract-oriented language.
//!
//! The library holds the verified logic of the pipeline: building compiler
//! options for a package or a raw file list, merging named-address bindings,
//! planning the isolated sandbox copy in which a mutant is compiled, and the
//! differential test-session decisions (baseline versus mutant profiles,
//! outcome classification, and the ordering barrier that keeps mutant work
//! from starting before the baseline has passed).  The host driver performs
//! the filesystem work and invokes the compiler toolchain; every decision it
//! acts on comes from a function of this crate with a contract.

pub mod addresses;
pub mod builder;
pub mod cli;
pub mod paths;
pub mod runner;
pub mod sandbox;
pub mod session;
