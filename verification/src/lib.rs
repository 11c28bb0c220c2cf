//! A static policy checker for JavaScript package-manager invocations.
//!
//! The library scans text content (documentation, shell scripts, Dockerfiles,
//! CI workflow definitions) line by line for `npm` / `pnpm` / `yarn` / `bun`
//! commands that neither respect a lockfile nor pin a dependency version, and
//! reports each occurrence as a line-level violation.

pub mod files;
pub mod laws;
pub mod rules;
pub mod scanner;
pub mod text;
