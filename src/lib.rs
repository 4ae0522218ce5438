//! Directory scanning and bounded media caching for a thumbnail gallery.
//!
//! The library holds the decisions of the gallery: which files of a directory
//! are shown, which media are loaded and kept, and what a frame shows of them.
//! Reading directories and files, locking and spawning tasks are left to the
//! application, which hands the results in as plain values.
use vstd::prelude::*;

pub mod media;
pub mod scan;
pub mod table;
pub mod cache;
pub mod store;
pub mod gallery;
pub mod laws;

verus! {

} // verus!
