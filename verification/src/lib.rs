//! Trusted ingestion of package archives: a recursive-descent parser for the
//! term literal notation used by package metadata files, and a verifier for
//! the tar-formatted archives that carry them.

pub mod term;
pub mod token;
pub mod grammar;
pub mod consult;
pub mod tarball;
