//! Merging of GraphQL schema documents that are split over several files.
//!
//! Every file contributes an ordered list of top-level definitions. The
//! lists are concatenated in file order and folded, from the left, into one
//! definition per name; definitions that cannot be unified are reported as
//! a conflict.

pub mod combine;
pub mod common;
pub mod config;
pub mod content;
pub mod documents;
pub mod error;
pub mod laws;
pub mod nameable;
pub mod schema;
