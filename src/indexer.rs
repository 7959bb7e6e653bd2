use vstd::prelude::*;
use crate::error::IndexError;
use crate::file_data::{extract_all, renderable, FileData};
use crate::listing::Listing;
use crate::table::{has_index_schema, IndexTable};

verus! {

/// The index table of the objects of `listing` in bucket `bucket`: one row
/// per listed key, each with a fresh identifier. Fails, naming a key, where a
/// listed time cannot be rendered; no table is made then.
pub fn index_listing(bucket: &str, listing: &Listing) -> (r: Result<IndexTable, IndexError>)
    requires
        listing.wf(),
    ensures
        r is Ok <==> forall|i: int|
            0 <= i < listing.pairs().len() ==> renderable(#[trigger] listing.pairs()[i].1),
        r matches Ok(t) ==> {
            &&& has_index_schema(t.schema@)
            &&& t.has_rows(listing.pairs().len())
            &&& forall|i: int| #![trigger t.row(i)]
                0 <= i < listing.pairs().len() ==> t.row(i).describes(
                    bucket@,
                    listing.pairs()[i].0,
                    listing.pairs()[i].1,
                ) && t.row(i).rendered() && t.row(i).id@.len() == 36
        },
        r matches Err(e) ==> (e matches IndexError::TimestampRange(k) && exists|i: int|
            0 <= i < listing.pairs().len() && listing.pairs()[i].0 == k@ && !renderable(
                listing.pairs()[i].1,
            )),
{
    let records = match extract_all(bucket, listing) {
        Ok(v) => v,
        Err(e) => {
            return Err(e);
        },
    };
    let t = FileData::to_df(&records);
    assert forall|i: int| 0 <= i < records@.len() implies #[trigger] t.row(i) == records@[i] by {
        assert(t.row_is(i, records@[i]));
    }
    Ok(t)
}

} // verus!
