//! Inventory of the objects under a prefix of a storage bucket: the listing
//! is gathered into a unique-key mapping, each object gets a metadata record,
//! and the records are assembled into one columnar table.
use vstd::prelude::*;

pub mod config;
pub mod error;
pub mod file_data;
pub mod indexer;
pub mod listing;
pub mod path;
pub mod table;

verus! {

} // verus!
