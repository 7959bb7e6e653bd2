use vstd::prelude::*;
use crate::error::IndexError;
use crate::file_data::fresh_id;

verus! {

/// The parameters of one run.
#[derive(Debug)]
pub struct Config {
    pub bucket_source: String,
    pub bucket_target: String,
    pub prefix_source: String,
    pub prefix_target: String,
    pub item_name: String,
}

/// Where a run with identifier `run_id` stores its table.
pub open spec fn output_key_of(prefix_target: Seq<char>, item_name: Seq<char>, run_id: Seq<char>) -> Seq<
    char,
> {
    prefix_target + item_name + "/id="@ + run_id + "-table=data_indexer.parquet"@
}

/// The name of the first parameter, in the order of `Config::new`, that was
/// not given.
pub open spec fn first_missing(
    bucket_source: Option<String>,
    bucket_target: Option<String>,
    prefix_source: Option<String>,
    prefix_target: Option<String>,
    item_name: Option<String>,
) -> Seq<char> {
    if bucket_source is None {
        "bucket_source"@
    } else if bucket_target is None {
        "bucket_target"@
    } else if prefix_source is None {
        "prefix_source"@
    } else if prefix_target is None {
        "prefix_target"@
    } else {
        "item_name"@
    }
}

fn required(v: Option<String>, name: &str) -> (r: Result<String, IndexError>)
    ensures
        v matches Some(s) ==> r == Ok::<String, IndexError>(s),
        v is None ==> (r matches Err(IndexError::ConfigMissing(k)) && k@ == name@),
{
    match v {
        Some(s) => Ok(s),
        None => Err(IndexError::ConfigMissing(String::from_str(name))),
    }
}

impl Config {
    /// The configuration from the looked-up value of each parameter. Fails,
    /// naming the first parameter that was not given.
    pub fn new(
        bucket_source: Option<String>,
        bucket_target: Option<String>,
        prefix_source: Option<String>,
        prefix_target: Option<String>,
        item_name: Option<String>,
    ) -> (r: Result<Self, IndexError>)
        ensures
            r is Ok <==> (bucket_source is Some && bucket_target is Some && prefix_source is Some
                && prefix_target is Some && item_name is Some),
            r matches Ok(c) ==> {
                &&& bucket_source == Some(c.bucket_source)
                &&& bucket_target == Some(c.bucket_target)
                &&& prefix_source == Some(c.prefix_source)
                &&& prefix_target == Some(c.prefix_target)
                &&& item_name == Some(c.item_name)
            },
            r matches Err(e) ==> (e matches IndexError::ConfigMissing(k) && k@ == first_missing(
                bucket_source,
                bucket_target,
                prefix_source,
                prefix_target,
                item_name,
            )),
    {
        let bucket_source = required(bucket_source, "bucket_source")?;
        let bucket_target = required(bucket_target, "bucket_target")?;
        let prefix_source = required(prefix_source, "prefix_source")?;
        let prefix_target = required(prefix_target, "prefix_target")?;
        let item_name = required(item_name, "item_name")?;
        Ok(Config { bucket_source, bucket_target, prefix_source, prefix_target, item_name })
    }

    /// The configuration holding the given parameters.
    pub fn create(
        bucket_source: &str,
        bucket_target: &str,
        prefix_source: &str,
        prefix_target: &str,
        item_name: &str,
    ) -> (r: Result<Self, IndexError>)
        ensures
            r matches Ok(c) && {
                &&& c.bucket_source@ == bucket_source@
                &&& c.bucket_target@ == bucket_target@
                &&& c.prefix_source@ == prefix_source@
                &&& c.prefix_target@ == prefix_target@
                &&& c.item_name@ == item_name@
            },
    {
        Ok(Config {
            bucket_source: String::from_str(bucket_source),
            bucket_target: String::from_str(bucket_target),
            prefix_source: String::from_str(prefix_source),
            prefix_target: String::from_str(prefix_target),
            item_name: String::from_str(item_name),
        })
    }

    /// The prefix whose keys a run lists: the source prefix followed by the
    /// item name.
    pub fn source_prefix(&self) -> (r: String)
        ensures
            r@ == self.prefix_source@ + self.item_name@,
    {
        let mut p = self.prefix_source.clone();
        p.append(self.item_name.as_str());
        p
    }

    /// Where the run with identifier `run_id` stores its table.
    pub fn output_key(&self, run_id: &str) -> (r: String)
        ensures
            r@ == output_key_of(self.prefix_target@, self.item_name@, run_id@),
    {
        let mut k = self.prefix_target.clone();
        k.append(self.item_name.as_str());
        k.append("/id=");
        k.append(run_id);
        k.append("-table=data_indexer.parquet");
        k
    }

    /// Where a run stores its table, under a freshly drawn run identifier.
    pub fn fresh_output_key(&self) -> (r: String)
        ensures
            exists|id: Seq<char>|
                id.len() == 36 && r@ == output_key_of(self.prefix_target@, self.item_name@, id),
    {
        let id = fresh_id();
        self.output_key(id.as_str())
    }

    /// A one-line account of the parameters.
    pub fn describe(&self) -> (r: String)
        ensures
            r@ == "config: item_name: "@ + self.item_name@ + " bucket_source: "@
                + self.bucket_source@ + " bucket_target: "@ + self.bucket_target@
                + " prefix_source: "@ + self.prefix_source@ + " prefix_target: "@
                + self.prefix_target@,
    {
        let mut s = String::from_str("config: item_name: ");
        s.append(self.item_name.as_str());
        s.append(" bucket_source: ");
        s.append(self.bucket_source.as_str());
        s.append(" bucket_target: ");
        s.append(self.bucket_target.as_str());
        s.append(" prefix_source: ");
        s.append(self.prefix_source.as_str());
        s.append(" prefix_target: ");
        s.append(self.prefix_target.as_str());
        s
    }
}

/// Runs with different identifiers store their tables under different keys,
/// so that no run overwrites the table of another.
pub proof fn lemma_output_keys_distinct(
    prefix_target: Seq<char>,
    item_name: Seq<char>,
    run_a: Seq<char>,
    run_b: Seq<char>,
)
    requires
        run_a != run_b,
    ensures
        output_key_of(prefix_target, item_name, run_a) != output_key_of(
            prefix_target,
            item_name,
            run_b,
        ),
{
    let head = prefix_target + item_name + "/id="@;
    let tail = "-table=data_indexer.parquet"@;
    let ka = output_key_of(prefix_target, item_name, run_a);
    let kb = output_key_of(prefix_target, item_name, run_b);
    assert(ka == head + run_a + tail);
    assert(kb == head + run_b + tail);
    if ka == kb {
        assert(run_a.len() == run_b.len());
        assert(ka.subrange(head.len() as int, head.len() + run_a.len() as int) =~= run_a);
        assert(kb.subrange(head.len() as int, head.len() + run_b.len() as int) =~= run_b);
    }
}

} // verus!
