//! Hestia: the verified core of a tag-based file catalogue.
use vstd::prelude::*;

pub mod report;
pub mod text;
pub mod paths;
pub mod errors;
pub mod file_type;
pub mod hashing;
pub mod order;
pub mod scanner;
pub mod library;
pub mod data;
pub mod watcher;
pub mod thumbnails;
pub mod queries;
pub mod stats;

verus! {

} // verus!
