use vstd::prelude::*;

verus! {

/// `k` without the `/` characters that end it.
pub open spec fn trim_end_slashes(k: Seq<char>) -> Seq<char>
    decreases k.len(),
{
    if k.len() > 0 && k.last() == '/' {
        trim_end_slashes(k.drop_last())
    } else {
        k
    }
}

/// Position of the last `c` in `s`, or -1 where `s` holds none.
pub open spec fn last_index_of(s: Seq<char>, c: char) -> int
    decreases s.len(),
{
    if s.len() == 0 {
        -1
    } else if s.last() == c {
        s.len() - 1
    } else {
        last_index_of(s.drop_last(), c)
    }
}

/// Final segment of a key read as a `/`-separated path; absent where the key
/// is empty or holds only separators.
pub open spec fn file_name_of(k: Seq<char>) -> Option<Seq<char>> {
    let t = trim_end_slashes(k);
    if t.len() == 0 {
        None
    } else {
        Some(t.subrange(last_index_of(t, '/') + 1, t.len() as int))
    }
}

/// What follows the last `.` of the final segment; absent where the segment
/// holds no `.`.
pub open spec fn file_type_of(k: Seq<char>) -> Option<Seq<char>> {
    match file_name_of(k) {
        None => None,
        Some(n) => {
            let d = last_index_of(n, '.');
            if d < 0 {
                None
            } else {
                Some(n.subrange(d + 1, n.len() as int))
            }
        },
    }
}

/// The segments before the final one, as they stand in the key; absent where
/// the key has a single segment.
pub open spec fn file_path_of(k: Seq<char>) -> Option<Seq<char>> {
    let t = trim_end_slashes(k);
    let i = last_index_of(t, '/');
    if i <= 0 {
        None
    } else {
        Some(t.subrange(0, i))
    }
}

/// Reference to object `k` of bucket `b`.
pub open spec fn url_of(b: Seq<char>, k: Seq<char>) -> Seq<char> {
    "s3://"@ + b + "/"@ + k
}

pub open spec fn text_of(o: Option<String>) -> Option<Seq<char>> {
    match o {
        Some(s) => Some(s@),
        None => None,
    }
}

pub proof fn lemma_last_index_bounds(s: Seq<char>, c: char)
    ensures
        -1 <= last_index_of(s, c) < s.len(),
        last_index_of(s, c) >= 0 ==> s[last_index_of(s, c)] == c,
        forall|j: int| last_index_of(s, c) < j < s.len() ==> s[j] != c,
    decreases s.len(),
{
    if s.len() > 0 && s.last() != c {
        lemma_last_index_bounds(s.drop_last(), c);
        assert forall|j: int| last_index_of(s, c) < j < s.len() implies s[j] != c by {
            if j < s.len() - 1 {
                assert(s[j] == s.drop_last()[j]);
            }
        }
    }
}

/// A sequence without `c` has no last `c`.
pub proof fn lemma_no_occurrence(s: Seq<char>, c: char)
    requires
        !s.contains(c),
    ensures
        last_index_of(s, c) == -1,
{
    lemma_last_index_bounds(s, c);
    if last_index_of(s, c) >= 0 {
        assert(s[last_index_of(s, c)] == c);
    }
}

/// A key whose final segment holds no `.` has no file type.
pub proof fn lemma_no_dot_no_type(k: Seq<char>)
    requires
        file_name_of(k) matches Some(n) ==> !n.contains('.'),
    ensures
        file_type_of(k) is None,
{
    match file_name_of(k) {
        Some(n) => lemma_no_occurrence(n, '.'),
        None => {},
    }
}

/// Number of characters of `s` that remain once its final `/` characters
/// are dropped.
fn trimmed_len(s: &str) -> (r: usize)
    ensures
        r <= s@.len(),
        trim_end_slashes(s@) == s@.subrange(0, r as int),
{
    let mut j = s.unicode_len();
    assert(s@.subrange(0, j as int) =~= s@);
    while j > 0 && s.get_char(j - 1) == '/'
        invariant
            j <= s@.len(),
            trim_end_slashes(s@) == trim_end_slashes(s@.subrange(0, j as int)),
        decreases j,
    {
        assert(s@.subrange(0, j as int).drop_last() =~= s@.subrange(0, j - 1));
        j = j - 1;
    }
    j
}

/// Position of the last `c` among the first `upto` characters of `s`.
fn last_index(s: &str, upto: usize, c: char) -> (r: Option<usize>)
    requires
        upto <= s@.len(),
    ensures
        match r {
            Some(i) => i == last_index_of(s@.subrange(0, upto as int), c),
            None => last_index_of(s@.subrange(0, upto as int), c) == -1,
        },
{
    let mut j = upto;
    while j > 0
        invariant
            j <= upto <= s@.len(),
            last_index_of(s@.subrange(0, upto as int), c) == last_index_of(
                s@.subrange(0, j as int),
                c,
            ),
        decreases j,
    {
        assert(s@.subrange(0, j as int).drop_last() =~= s@.subrange(0, j - 1));
        if s.get_char(j - 1) == c {
            return Some(j - 1);
        }
        j = j - 1;
    }
    None
}

/// The final segment of `key`.
pub fn file_name(key: &str) -> (r: Option<String>)
    ensures
        text_of(r) == file_name_of(key@),
{
    let t = trimmed_len(key);
    if t == 0 {
        return None;
    }
    let ghost tv = key@.subrange(0, t as int);
    proof {
        lemma_last_index_bounds(tv, '/');
    }
    let start = match last_index(key, t, '/') {
        Some(i) => i + 1,
        None => 0,
    };
    let name = key.substring_char(start, t);
    assert(name@ =~= tv.subrange(last_index_of(tv, '/') + 1, tv.len() as int));
    Some(String::from_str(name))
}

/// What follows the last `.` of the final segment of `key`.
pub fn file_type(key: &str) -> (r: Option<String>)
    ensures
        text_of(r) == file_type_of(key@),
{
    match file_name(key) {
        None => None,
        Some(n) => {
            let s = n.as_str();
            let len = s.unicode_len();
            assert(s@.subrange(0, len as int) =~= s@);
            proof {
                lemma_last_index_bounds(s@, '.');
            }
            match last_index(s, len, '.') {
                None => None,
                Some(d) => Some(String::from_str(s.substring_char(d + 1, len))),
            }
        },
    }
}

/// The segments of `key` before its final one.
pub fn file_path(key: &str) -> (r: Option<String>)
    ensures
        text_of(r) == file_path_of(key@),
{
    let t = trimmed_len(key);
    let ghost tv = key@.subrange(0, t as int);
    proof {
        lemma_last_index_bounds(tv, '/');
    }
    match last_index(key, t, '/') {
        None => None,
        Some(i) => {
            if i == 0 {
                None
            } else {
                let p = key.substring_char(0, i);
                assert(p@ =~= tv.subrange(0, i as int));
                Some(String::from_str(p))
            }
        },
    }
}

/// The reference `s3://<bucket>/<key>` to an object.
pub fn file_url(bucket: &str, key: &str) -> (r: String)
    ensures
        r@ == url_of(bucket@, key@),
{
    let mut u = String::from_str("s3://");
    u.append(bucket);
    u.append("/");
    u.append(key);
    u
}

} // verus!
