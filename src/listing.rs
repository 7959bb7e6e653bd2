use vstd::prelude::*;

verus! {

/// Size and last-modified time that a listing reports for one object.
#[derive(Clone, Copy, Debug, PartialEq, Eq, Structural)]
pub struct ListingEntry {
    /// Size in bytes, where the backend reported one.
    pub size: Option<i64>,
    /// Last modification, in seconds since the Unix epoch, where reported.
    pub last_modified: Option<i64>,
}

/// A key of a listing page with the entry reported for it.
pub open spec fn pair_view(p: (String, ListingEntry)) -> (Seq<char>, ListingEntry) {
    (p.0@, p.1)
}

/// The pairs of a page, as mathematical values.
pub open spec fn pairs_view(v: Seq<(String, ListingEntry)>) -> Seq<(Seq<char>, ListingEntry)> {
    v.map_values(|p: (String, ListingEntry)| pair_view(p))
}

/// The mapping `m` after the pairs `s` have been stored into it in order:
/// a key that occurs more than once keeps the entry of its last occurrence.
pub open spec fn apply_pairs(
    m: Map<Seq<char>, ListingEntry>,
    s: Seq<(Seq<char>, ListingEntry)>,
) -> Map<Seq<char>, ListingEntry>
    decreases s.len(),
{
    if s.len() == 0 {
        m
    } else {
        apply_pairs(m, s.drop_last()).insert(s.last().0, s.last().1)
    }
}

/// No key occurs twice in `s`.
pub open spec fn keys_unique(s: Seq<(Seq<char>, ListingEntry)>) -> bool {
    forall|i: int, j: int| 0 <= i < j < s.len() ==> s[i].0 != s[j].0
}

/// What follows a listing page: a request for the page behind the
/// continuation token, or the end of the listing.
#[derive(Debug)]
pub enum ListStep {
    Continue(String),
    Finished,
}

/// The unique-key mapping from object key to listing entry, filled page by page.
pub struct Listing {
    entries: Vec<(String, ListingEntry)>,
}

impl Listing {
    /// The mapping that the listing holds.
    pub closed spec fn view(&self) -> Map<Seq<char>, ListingEntry> {
        apply_pairs(Map::empty(), pairs_view(self.entries@))
    }

    /// The stored pairs, one per key.
    pub closed spec fn pairs(&self) -> Seq<(Seq<char>, ListingEntry)> {
        pairs_view(self.entries@)
    }

    /// No key is stored twice.
    pub closed spec fn wf(&self) -> bool {
        keys_unique(self.pairs())
    }

    /// The mapping holds each stored pair, one entry per key, and nothing else.
    pub proof fn lemma_pairs(&self)
        requires
            self.wf(),
        ensures
            keys_unique(self.pairs()),
            self.view() == apply_pairs(Map::empty(), self.pairs()),
            self.view().dom().finite(),
            self.view().dom().len() == self.pairs().len(),
            forall|i: int| #![trigger self.pairs()[i]]
                0 <= i < self.pairs().len() ==> self.view().contains_key(self.pairs()[i].0)
                    && self.view()[self.pairs()[i].0] == self.pairs()[i].1,
            forall|k: Seq<char>| #[trigger]
                self.view().contains_key(k) ==> exists|i: int|
                    0 <= i < self.pairs().len() && self.pairs()[i].0 == k,
    {
        lemma_unique_map(self.pairs());
    }

    /// An empty listing.
    pub fn new() -> (r: Listing)
        ensures
            r.wf(),
            r@ == Map::<Seq<char>, ListingEntry>::empty(),
            r.pairs().len() == 0,
    {
        let r = Listing { entries: Vec::new() };
        assert(r.pairs() =~= Seq::empty());
        r
    }

    /// How many keys the listing holds.
    pub fn len(&self) -> (r: usize)
        requires
            self.wf(),
        ensures
            r == self@.dom().len(),
            r == self.pairs().len(),
    {
        proof {
            self.lemma_pairs();
        }
        self.entries.len()
    }

    /// The key and entry stored at position `i`.
    pub fn get(&self, i: usize) -> (r: (&String, ListingEntry))
        requires
            i < self.pairs().len(),
        ensures
            r.0@ == self.pairs()[i as int].0,
            r.1 == self.pairs()[i as int].1,
    {
        let p = &self.entries[i];
        (&p.0, p.1)
    }

    /// Stores `entry` under `key`, replacing what an earlier page gave for it.
    pub fn upsert(&mut self, key: String, entry: ListingEntry)
        requires
            old(self).wf(),
        ensures
            final(self).wf(),
            final(self)@ == old(self)@.insert(key@, entry),
    {
        let ghost before = self.pairs();
        let n = self.entries.len();
        let mut i: usize = 0;
        while i < n
            invariant
                n == self.entries@.len(),
                self.entries@ == old(self).entries@,
                before == self.pairs(),
                keys_unique(before),
                0 <= i <= n,
                forall|j: int| 0 <= j < i ==> before[j].0 != key@,
            decreases n - i,
        {
            if self.entries[i].0 == key {
                let ghost p = (key@, entry);
                self.entries.set(i, (key, entry));
                proof {
                    assert(self.pairs() =~= before.update(i as int, p));
                    lemma_update_unique(before, i as int, p);
                }
                return;
            }
            i = i + 1;
        }
        let ghost p = (key@, entry);
        self.entries.push((key, entry));
        assert(self.pairs() =~= before.push(p));
        assert(self.pairs().drop_last() =~= before);
    }

    /// Stores the pairs of one listing page in order, then decides whether
    /// another page is to be fetched: the backend's continuation token, where
    /// it gave one, names that page.
    pub fn receive_page(&mut self, page: Vec<(String, ListingEntry)>, next_token: Option<String>) -> (r:
        ListStep)
        requires
            old(self).wf(),
        ensures
            final(self).wf(),
            final(self)@ == apply_pairs(old(self)@, pairs_view(page@)),
            match next_token {
                Some(t) => r == ListStep::Continue(t),
                None => r == ListStep::Finished,
            },
    {
        let ghost start = self@;
        let ghost pv = pairs_view(page@);
        let n = page.len();
        let mut k: usize = 0;
        while k < n
            invariant
                self.wf(),
                n == pv.len(),
                pv == pairs_view(page@),
                0 <= k <= n,
                self@ == apply_pairs(start, pv.subrange(0, k as int)),
            decreases n - k,
        {
            let key = page[k].0.clone();
            self.upsert(key, page[k].1);
            assert(pv.subrange(0, k + 1).drop_last() =~= pv.subrange(0, k as int));
            k = k + 1;
        }
        assert(pv.subrange(0, n as int) =~= pv);
        match next_token {
            Some(t) => ListStep::Continue(t),
            None => ListStep::Finished,
        }
    }
}

/// Replacing the entry of a key in a sequence with unique keys is an insert
/// into its mapping.
proof fn lemma_update_unique(s: Seq<(Seq<char>, ListingEntry)>, j: int, p: (Seq<char>, ListingEntry))
    requires
        keys_unique(s),
        0 <= j < s.len(),
        s[j].0 == p.0,
    ensures
        keys_unique(s.update(j, p)),
        apply_pairs(Map::empty(), s.update(j, p)) == apply_pairs(Map::empty(), s).insert(p.0, p.1),
    decreases s.len(),
{
    let u = s.update(j, p);
    assert forall|a: int, b: int| 0 <= a < b < u.len() implies u[a].0 != u[b].0 by {
        assert(s[a].0 != s[b].0);
    }
    if j == s.len() - 1 {
        assert(u.drop_last() =~= s.drop_last());
        assert(apply_pairs(Map::empty(), u) =~= apply_pairs(Map::empty(), s).insert(p.0, p.1));
    } else {
        assert(u.drop_last() =~= s.drop_last().update(j, p));
        lemma_update_unique(s.drop_last(), j, p);
        assert(s.last().0 != p.0);
        assert(apply_pairs(Map::empty(), u) =~= apply_pairs(Map::empty(), s).insert(p.0, p.1));
    }
}

/// The mapping of a sequence with unique keys holds each pair of it, and
/// nothing else.
proof fn lemma_unique_map(s: Seq<(Seq<char>, ListingEntry)>)
    requires
        keys_unique(s),
    ensures
        apply_pairs(Map::empty(), s).dom().finite(),
        apply_pairs(Map::empty(), s).dom().len() == s.len(),
        forall|i: int| #![trigger s[i]]
            0 <= i < s.len() ==> apply_pairs(Map::empty(), s).contains_key(s[i].0)
                && apply_pairs(Map::empty(), s)[s[i].0] == s[i].1,
        forall|k: Seq<char>| #[trigger]
            apply_pairs(Map::empty(), s).contains_key(k) ==> exists|i: int|
                0 <= i < s.len() && s[i].0 == k,
    decreases s.len(),
{
    if s.len() > 0 {
        let d = s.drop_last();
        lemma_unique_map(d);
        let m = apply_pairs(Map::empty(), d);
        assert(!m.contains_key(s.last().0)) by {
            if m.contains_key(s.last().0) {
                let i = choose|i: int| 0 <= i < d.len() && d[i].0 == s.last().0;
                assert(s[i].0 == s[s.len() - 1].0);
            }
        }
        assert forall|i: int| #![trigger s[i]]
            0 <= i < s.len() implies apply_pairs(Map::empty(), s).contains_key(s[i].0)
                && apply_pairs(Map::empty(), s)[s[i].0] == s[i].1 by {
            if i < s.len() - 1 {
                assert(s[i] == d[i]);
                assert(s[i].0 != s[s.len() - 1].0);
            }
        }
        assert forall|k: Seq<char>| #[trigger]
            apply_pairs(Map::empty(), s).contains_key(k) implies exists|i: int|
                0 <= i < s.len() && s[i].0 == k by {
            if k != s.last().0 {
                let i = choose|i: int| 0 <= i < d.len() && d[i].0 == k;
                assert(s[i] == d[i]);
            }
        }
    }
}


/// Storing the pairs of two pages one after the other stores the pairs of
/// both in their order.
pub proof fn lemma_pages_concat(
    m: Map<Seq<char>, ListingEntry>,
    a: Seq<(Seq<char>, ListingEntry)>,
    b: Seq<(Seq<char>, ListingEntry)>,
)
    ensures
        apply_pairs(apply_pairs(m, a), b) == apply_pairs(m, a + b),
    decreases b.len(),
{
    if b.len() == 0 {
        assert(a + b =~= a);
    } else {
        lemma_pages_concat(m, a, b.drop_last());
        assert((a + b).drop_last() =~= a + b.drop_last());
    }
}

/// Where the listed keys are distinct, the listing holds exactly one entry per
/// key, the one reported for it.
pub proof fn lemma_distinct_keys_listed(s: Seq<(Seq<char>, ListingEntry)>)
    requires
        keys_unique(s),
    ensures
        apply_pairs(Map::empty(), s).dom().finite(),
        apply_pairs(Map::empty(), s).dom().len() == s.len(),
        forall|i: int| #![trigger s[i]]
            0 <= i < s.len() ==> apply_pairs(Map::empty(), s).contains_key(s[i].0)
                && apply_pairs(Map::empty(), s)[s[i].0] == s[i].1,
{
    lemma_unique_map(s);
}

/// A key listed more than once keeps a single entry: the one of its last
/// listing.
pub proof fn lemma_last_seen_wins(
    m: Map<Seq<char>, ListingEntry>,
    s: Seq<(Seq<char>, ListingEntry)>,
    i: int,
)
    requires
        0 <= i < s.len(),
        forall|j: int| i < j < s.len() ==> s[j].0 != s[i].0,
    ensures
        apply_pairs(m, s).contains_key(s[i].0),
        apply_pairs(m, s)[s[i].0] == s[i].1,
    decreases s.len(),
{
    if i < s.len() - 1 {
        let d = s.drop_last();
        assert(d[i] == s[i]);
        assert forall|j: int| i < j < d.len() implies d[j].0 != d[i].0 by {
            assert(d[j] == s[j]);
        }
        lemma_last_seen_wins(m, d, i);
        assert(s.last().0 != s[i].0);
    }
}

} // verus!
