//! Orchestration core for checking that smart-contract packages rebuild
//! reproducibly: catalog loading, artifact discovery, dependency-ordered
//! scheduling, and the build/optimize/reproduce pipeline decisions.

pub mod catalog;
pub mod errors;
pub mod flow;
pub mod locator;
pub mod packages;
pub mod paths;
pub mod pipeline;
pub mod sort;
pub mod strutil;
pub mod toolchain;
