use vstd::prelude::*;
use crate::file_data::FileData;

verus! {

/// The value type of a column.
#[derive(Clone, Copy, Debug, PartialEq, Eq, Structural)]
pub enum ColumnKind {
    Utf8,
    Int64,
}

/// Name, value type and nullability of one column.
#[derive(Debug)]
pub struct ColumnSpec {
    pub name: String,
    pub kind: ColumnKind,
    pub nullable: bool,
}

impl ColumnSpec {
    pub open spec fn is(&self, name: Seq<char>, kind: ColumnKind, nullable: bool) -> bool {
        self.name@ == name && self.kind == kind && self.nullable == nullable
    }
}

/// The index as columns: one entry per record in each, in record order.
#[derive(Debug)]
pub struct IndexTable {
    pub schema: Vec<ColumnSpec>,
    pub ids: Vec<String>,
    pub file_names: Vec<Option<String>>,
    pub file_types: Vec<Option<String>>,
    pub file_sizes: Vec<Option<i64>>,
    pub file_paths: Vec<Option<String>>,
    pub file_urls: Vec<String>,
    pub dts: Vec<Option<i64>>,
    pub dt_fmts: Vec<Option<String>>,
}

/// The fixed schema: a column per field of a record, nullable where the
/// field is optional.
pub open spec fn has_index_schema(s: Seq<ColumnSpec>) -> bool {
    &&& s.len() == 8
    &&& s[0].is("id"@, ColumnKind::Utf8, false)
    &&& s[1].is("file_name"@, ColumnKind::Utf8, true)
    &&& s[2].is("file_type"@, ColumnKind::Utf8, true)
    &&& s[3].is("file_size"@, ColumnKind::Int64, true)
    &&& s[4].is("file_path"@, ColumnKind::Utf8, true)
    &&& s[5].is("file_url"@, ColumnKind::Utf8, false)
    &&& s[6].is("dt"@, ColumnKind::Int64, true)
    &&& s[7].is("dt_fmt"@, ColumnKind::Utf8, true)
}

impl IndexTable {
    /// Row `i` of the table is `d`.
    pub open spec fn row_is(&self, i: int, d: FileData) -> bool {
        &&& self.ids@[i] == d.id
        &&& self.file_names@[i] == d.file_name
        &&& self.file_types@[i] == d.file_type
        &&& self.file_sizes@[i] == d.file_size
        &&& self.file_paths@[i] == d.file_path
        &&& self.file_urls@[i] == d.file_url
        &&& self.dts@[i] == d.dt
        &&& self.dt_fmts@[i] == d.dt_fmt
    }

    /// Row `i` of the table, as a record.
    pub open spec fn row(&self, i: int) -> FileData {
        FileData {
            id: self.ids@[i],
            file_name: self.file_names@[i],
            file_type: self.file_types@[i],
            file_path: self.file_paths@[i],
            file_size: self.file_sizes@[i],
            file_url: self.file_urls@[i],
            dt: self.dts@[i],
            dt_fmt: self.dt_fmts@[i],
        }
    }

    /// Every column holds `n` entries.
    pub open spec fn has_rows(&self, n: nat) -> bool {
        &&& self.ids@.len() == n
        &&& self.file_names@.len() == n
        &&& self.file_types@.len() == n
        &&& self.file_sizes@.len() == n
        &&& self.file_paths@.len() == n
        &&& self.file_urls@.len() == n
        &&& self.dts@.len() == n
        &&& self.dt_fmts@.len() == n
    }

    /// The table holds the records `rows`, in order, under the fixed schema.
    pub open spec fn holds(&self, rows: Seq<FileData>) -> bool {
        &&& has_index_schema(self.schema@)
        &&& self.has_rows(rows.len())
        &&& forall|i: int| 0 <= i < rows.len() ==> #[trigger] self.row_is(i, rows[i])
    }

    /// Number of rows.
    pub fn num_rows(&self) -> (r: usize)
        ensures
            r == self.ids@.len(),
    {
        self.ids.len()
    }
}

fn column(name: &str, kind: ColumnKind, nullable: bool) -> (r: ColumnSpec)
    ensures
        r.is(name@, kind, nullable),
{
    ColumnSpec { name: String::from_str(name), kind, nullable }
}

/// The fixed schema of the index.
pub fn index_schema() -> (r: Vec<ColumnSpec>)
    ensures
        has_index_schema(r@),
{
    let mut s: Vec<ColumnSpec> = Vec::new();
    s.push(column("id", ColumnKind::Utf8, false));
    s.push(column("file_name", ColumnKind::Utf8, true));
    s.push(column("file_type", ColumnKind::Utf8, true));
    s.push(column("file_size", ColumnKind::Int64, true));
    s.push(column("file_path", ColumnKind::Utf8, true));
    s.push(column("file_url", ColumnKind::Utf8, false));
    s.push(column("dt", ColumnKind::Int64, true));
    s.push(column("dt_fmt", ColumnKind::Utf8, true));
    s
}

fn copy_text(o: &Option<String>) -> (r: Option<String>)
    ensures
        r == *o,
{
    match o {
        Some(s) => Some(s.clone()),
        None => None,
    }
}

impl FileData {
    /// The table of `records`: one row per record, in their order.
    pub fn to_df(records: &Vec<FileData>) -> (r: IndexTable)
        ensures
            r.holds(records@),
    {
        let mut t = IndexTable {
            schema: index_schema(),
            ids: Vec::new(),
            file_names: Vec::new(),
            file_types: Vec::new(),
            file_sizes: Vec::new(),
            file_paths: Vec::new(),
            file_urls: Vec::new(),
            dts: Vec::new(),
            dt_fmts: Vec::new(),
        };
        let n = records.len();
        let mut i: usize = 0;
        while i < n
            invariant
                n == records@.len(),
                0 <= i <= n,
                has_index_schema(t.schema@),
                t.has_rows(i as nat),
                forall|j: int| 0 <= j < i ==> #[trigger] t.row_is(j, records@[j]),
            decreases n - i,
        {
            let ghost t0 = t;
            let d = &records[i];
            t.ids.push(d.id.clone());
            t.file_names.push(copy_text(&d.file_name));
            t.file_types.push(copy_text(&d.file_type));
            t.file_sizes.push(d.file_size);
            t.file_paths.push(copy_text(&d.file_path));
            t.file_urls.push(d.file_url.clone());
            t.dts.push(d.dt);
            t.dt_fmts.push(copy_text(&d.dt_fmt));
            assert(t.row_is(i as int, records@[i as int]));
            assert forall|j: int| 0 <= j < i + 1 implies #[trigger] t.row_is(j, records@[j]) by {
                if j < i {
                    assert(t0.row_is(j, records@[j]));
                }
            }
            i = i + 1;
        }
        t
    }
}

} // verus!
