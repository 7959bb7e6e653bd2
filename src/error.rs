use vstd::prelude::*;

verus! {

/// Why a run of the indexer stopped.
#[derive(Debug)]
pub enum IndexError {
    /// A run parameter was not given; the value names the parameter.
    ConfigMissing(String),
    /// The last-modified time of the named key lies outside the range of
    /// instants that can be rendered.
    TimestampRange(String),
}

} // verus!
