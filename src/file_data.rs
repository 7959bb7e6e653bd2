use vstd::prelude::*;
use crate::error::IndexError;
use crate::listing::{Listing, ListingEntry};
use crate::path::{
    file_name, file_name_of, file_path, file_path_of, file_type, file_type_of, file_url, text_of,
    url_of,
};

verus! {

/// Earliest epoch second that can be rendered as a UTC date and time
/// (January 1 of the year -262143, 00:00:00).
pub const UTC_MIN_SECS: i64 = -8334601228800;

/// Latest epoch second that can be rendered as a UTC date and time
/// (December 31 of the year 262142, 23:59:59).
pub const UTC_MAX_SECS: i64 = 8210266876799;

/// The UTC calendar rendering of an epoch second, `YYYY-MM-DD hh:mm:ss UTC`.
pub uninterp spec fn utc_text(secs: int) -> Seq<char>;

/// Relies on chrono's `DateTime::<Utc>::from_timestamp`, which gives an instant
/// exactly for the seconds between `UTC_MIN_SECS` and `UTC_MAX_SECS`, and on
/// the `Display` of `DateTime<Utc>`, which renders it.
#[verifier::external_body]
fn render_utc(secs: i64) -> (r: Option<String>)
    ensures
        r is Some <==> UTC_MIN_SECS <= secs <= UTC_MAX_SECS,
        r matches Some(t) ==> t@ == utc_text(secs as int),
{
    chrono::DateTime::<chrono::Utc>::from_timestamp(secs, 0).map(|d| d.to_string())
}

/// Relies on uuid's `Uuid::new_v4`, a random identifier, written out by its
/// `Display` in the hyphenated form of 36 characters.
#[verifier::external_body]
pub(crate) fn fresh_id() -> (r: String)
    ensures
        r@.len() == 36,
{
    uuid::Uuid::new_v4().to_string()
}

pub open spec fn str_text(o: Option<&str>) -> Option<Seq<char>> {
    match o {
        Some(s) => Some(s@),
        None => None,
    }
}

fn owned(o: Option<&str>) -> (r: Option<String>)
    ensures
        text_of(r) == str_text(o),
{
    match o {
        Some(s) => Some(String::from_str(s)),
        None => None,
    }
}

/// One row of the index: the metadata of one listed object.
#[derive(Debug)]
pub struct FileData {
    pub id: String,
    pub file_name: Option<String>,
    pub file_type: Option<String>,
    pub file_path: Option<String>,
    pub file_size: Option<i64>,
    pub file_url: String,
    pub dt: Option<i64>,
    pub dt_fmt: Option<String>,
}

impl FileData {
    /// The record holds the metadata of key `key` of bucket `bucket`, listed
    /// with `entry`; its rendered time is present exactly where its time is.
    pub open spec fn describes(&self, bucket: Seq<char>, key: Seq<char>, entry: ListingEntry) -> bool {
        &&& text_of(self.file_name) == file_name_of(key)
        &&& text_of(self.file_type) == file_type_of(key)
        &&& text_of(self.file_path) == file_path_of(key)
        &&& self.file_size == entry.size
        &&& self.file_url@ == url_of(bucket, key)
        &&& self.dt == entry.last_modified
        &&& self.dt_fmt is Some <==> self.dt is Some
    }

    /// The rendered time is the UTC rendering of the time.
    pub open spec fn rendered(&self) -> bool {
        self.dt matches Some(s) ==> text_of(self.dt_fmt) == Some(utc_text(s as int))
    }

    pub fn new(
        id: &str,
        file_name: Option<&str>,
        file_type: Option<&str>,
        file_path: Option<&str>,
        file_size: Option<i64>,
        file_url: &str,
        dt: Option<i64>,
        dt_fmt: Option<&str>,
    ) -> (r: Self)
        ensures
            r.id@ == id@,
            text_of(r.file_name) == str_text(file_name),
            text_of(r.file_type) == str_text(file_type),
            text_of(r.file_path) == str_text(file_path),
            r.file_size == file_size,
            r.file_url@ == file_url@,
            r.dt == dt,
            text_of(r.dt_fmt) == str_text(dt_fmt),
    {
        FileData {
            id: String::from_str(id),
            file_name: owned(file_name),
            file_type: owned(file_type),
            file_path: owned(file_path),
            file_size,
            file_url: String::from_str(file_url),
            dt,
            dt_fmt: owned(dt_fmt),
        }
    }

    /// The record of key `key` of bucket `bucket` listed with `entry`, with
    /// identifier `id` and `dt_fmt` as the rendering of its time.
    pub fn from_listing(
        bucket: &str,
        key: &str,
        entry: ListingEntry,
        id: String,
        dt_fmt: Option<String>,
    ) -> (r: Self)
        requires
            dt_fmt is Some <==> entry.last_modified is Some,
        ensures
            r.describes(bucket@, key@, entry),
            r.id == id,
            r.dt_fmt == dt_fmt,
    {
        FileData {
            id,
            file_name: file_name(key),
            file_type: file_type(key),
            file_path: file_path(key),
            file_size: entry.size,
            file_url: file_url(bucket, key),
            dt: entry.last_modified,
            dt_fmt,
        }
    }

    /// The record of key `key` of bucket `bucket` listed with `entry`, with
    /// identifier `id`. Fails, naming the key, where the time cannot be
    /// rendered.
    pub fn extract(bucket: &str, key: &str, entry: ListingEntry, id: String) -> (r: Result<
        Self,
        IndexError,
    >)
        ensures
            r is Err <==> (entry.last_modified matches Some(s) && !(UTC_MIN_SECS <= s
                <= UTC_MAX_SECS)),
            r matches Err(e) ==> (e matches IndexError::TimestampRange(k) && k@ == key@),
            r matches Ok(d) ==> d.describes(bucket@, key@, entry) && d.rendered() && d.id == id,
    {
        let dt_fmt = match entry.last_modified {
            None => None,
            Some(s) => match render_utc(s) {
                None => {
                    return Err(IndexError::TimestampRange(String::from_str(key)));
                },
                Some(t) => Some(t),
            },
        };
        Ok(FileData::from_listing(bucket, key, entry, id, dt_fmt))
    }
}

/// A listed time that can be rendered, or none.
pub open spec fn renderable(entry: ListingEntry) -> bool {
    entry.last_modified matches Some(s) ==> UTC_MIN_SECS <= s <= UTC_MAX_SECS
}

/// The records of every key of `listing` in bucket `bucket`, each with a fresh
/// identifier. Fails, naming a key, where a listed time cannot be rendered.
pub fn extract_all(bucket: &str, listing: &Listing) -> (r: Result<Vec<FileData>, IndexError>)
    requires
        listing.wf(),
    ensures
        r is Ok <==> forall|i: int|
            0 <= i < listing.pairs().len() ==> renderable(#[trigger] listing.pairs()[i].1),
        r matches Ok(v) ==> {
            &&& v@.len() == listing.pairs().len()
            &&& forall|i: int| #![trigger v@[i]]
                0 <= i < v@.len() ==> v@[i].describes(
                    bucket@,
                    listing.pairs()[i].0,
                    listing.pairs()[i].1,
                ) && v@[i].rendered() && v@[i].id@.len() == 36
        },
        r matches Err(e) ==> (e matches IndexError::TimestampRange(k) && exists|i: int|
            0 <= i < listing.pairs().len() && listing.pairs()[i].0 == k@ && !renderable(
                listing.pairs()[i].1,
            )),
{
    let n = listing.len();
    let mut out: Vec<FileData> = Vec::new();
    let mut i: usize = 0;
    while i < n
        invariant
            n == listing.pairs().len(),
            0 <= i <= n,
            out@.len() == i,
            forall|j: int| 0 <= j < i ==> renderable(#[trigger] listing.pairs()[j].1),
            forall|j: int| #![trigger out@[j]]
                0 <= j < i ==> out@[j].describes(
                    bucket@,
                    listing.pairs()[j].0,
                    listing.pairs()[j].1,
                ) && out@[j].rendered() && out@[j].id@.len() == 36,
        decreases n - i,
    {
        let (key, entry) = listing.get(i);
        let id = fresh_id();
        match FileData::extract(bucket, key.as_str(), entry, id) {
            Ok(d) => {
                out.push(d);
            },
            Err(e) => {
                return Err(e);
            },
        }
        i = i + 1;
    }
    Ok(out)
}

} // verus!
