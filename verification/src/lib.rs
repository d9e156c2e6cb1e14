//! Redirect a declared dependency to a locally forked copy.
//!
//! The crate covers the two parts of that workflow that carry real logic:
//! resolving a dependency name to the upstream repository declared by the
//! first matching direct edge of a workspace member (`graph`), and rewriting
//! the manifest's patch table without disturbing unrelated content
//! (`manifest`, with its document model in `model`). `urls` holds the small
//! string computations around forking and local clone paths.

pub mod graph;
pub mod manifest;
pub mod model;
pub mod urls;
