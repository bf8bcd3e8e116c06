//! A bounded path-to-preview cache with least-recently-used eviction.
use vstd::prelude::*;
use crate::preview_content::{ContentView, PreviewContent};

verus! {

/// Entries of a cache, least recently used first.
pub type Entries = Seq<(Seq<char>, ContentView)>;

pub open spec fn has_key(s: Entries, k: Seq<char>) -> bool {
    exists|i: int| 0 <= i < s.len() && s[i].0 == k
}

/// The position of key `k` in `s` (meaningful when `has_key(s, k)`).
pub open spec fn key_index(s: Entries, k: Seq<char>) -> int {
    choose|i: int| 0 <= i < s.len() && s[i].0 == k
}

pub open spec fn keys_unique(s: Entries) -> bool {
    forall|a: int, b: int| 0 <= a < s.len() && 0 <= b < s.len() && a != b ==> s[a].0 != s[b].0
}

/// The state of a cache: its entries in recency order (least recently used
/// first, most recently used last) and its capacity.
pub struct CacheModel {
    pub entries: Entries,
    pub capacity: nat,
}

impl CacheModel {
    /// Keys are unique and the cache holds no more than its capacity (a
    /// cache of capacity zero still keeps the last entry inserted).
    pub open spec fn wf(self) -> bool {
        &&& keys_unique(self.entries)
        &&& self.entries.len() <= self.capacity || self.entries.len() <= 1
    }

    pub open spec fn contains(self, k: Seq<char>) -> bool {
        has_key(self.entries, k)
    }

    pub open spec fn lookup(self, k: Seq<char>) -> Option<ContentView> {
        if has_key(self.entries, k) {
            Some(self.entries[key_index(self.entries, k)].1)
        } else {
            None
        }
    }

    /// The cache after a read of `k`: a present key becomes most recently used.
    pub open spec fn touched(self, k: Seq<char>) -> CacheModel {
        if has_key(self.entries, k) {
            let i = key_index(self.entries, k);
            CacheModel { entries: self.entries.remove(i).push(self.entries[i]), ..self }
        } else {
            self
        }
    }

    /// The cache after inserting `v` under `k`: a present key takes the new
    /// content and becomes most recently used; a new key evicts the least
    /// recently used entry when the cache is full, then goes in last.
    pub open spec fn inserted(self, k: Seq<char>, v: ContentView) -> CacheModel {
        if has_key(self.entries, k) {
            CacheModel { entries: self.entries.remove(key_index(self.entries, k)).push((k, v)), ..self }
        } else if self.entries.len() >= self.capacity && self.entries.len() > 0 {
            CacheModel { entries: self.entries.subrange(1, self.entries.len() as int).push((k, v)), ..self }
        } else {
            CacheModel { entries: self.entries.push((k, v)), ..self }
        }
    }
}

/// Bounded map from file path to preview content with LRU eviction.
#[derive(Debug)]
pub struct PreviewCache {
    entries: Vec<(String, PreviewContent)>,
    max_size: usize,
}

pub open spec fn entry_view(e: (String, PreviewContent)) -> (Seq<char>, ContentView) {
    (e.0@, e.1@)
}

impl View for PreviewCache {
    type V = CacheModel;

    closed spec fn view(&self) -> CacheModel {
        CacheModel { entries: self.entries@.map_values(|e: (String, PreviewContent)| entry_view(e)), capacity: self.max_size as nat }
    }
}

proof fn lemma_remove_keeps_unique(s: Entries, i: int)
    requires
        keys_unique(s),
        0 <= i < s.len(),
    ensures
        keys_unique(s.remove(i)),
        forall|k: Seq<char>| #[trigger] has_key(s.remove(i), k) <==> (has_key(s, k) && k != s[i].0),
{
    let r = s.remove(i);
    assert forall|k: Seq<char>| #[trigger] has_key(r, k) <==> (has_key(s, k) && k != s[i].0) by {
        if has_key(r, k) {
            let j = choose|j: int| 0 <= j < r.len() && r[j].0 == k;
            if j < i {
                assert(s[j].0 == k);
            } else {
                assert(s[j + 1].0 == k);
            }
        }
        if has_key(s, k) && k != s[i].0 {
            let j = choose|j: int| 0 <= j < s.len() && s[j].0 == k;
            if j < i {
                assert(r[j].0 == k);
            } else {
                assert(r[j - 1].0 == k);
            }
        }
    }
}

proof fn lemma_push_new_key_unique(s: Entries, e: (Seq<char>, ContentView))
    requires
        keys_unique(s),
        !has_key(s, e.0),
    ensures
        keys_unique(s.push(e)),
        forall|k: Seq<char>| #[trigger] has_key(s.push(e), k) <==> (has_key(s, k) || k == e.0),
{
    let r = s.push(e);
    assert forall|a: int, b: int| 0 <= a < r.len() && 0 <= b < r.len() && a != b implies r[a].0 != r[b].0 by {
        if a == s.len() {
            assert(s[b].0 == r[b].0);
        } else if b == s.len() {
            assert(s[a].0 == r[a].0);
        }
    }
    assert forall|k: Seq<char>| #[trigger] has_key(r, k) <==> (has_key(s, k) || k == e.0) by {
        if has_key(r, k) {
            let j = choose|j: int| 0 <= j < r.len() && r[j].0 == k;
            if j < s.len() {
                assert(s[j].0 == k);
            }
        }
        if has_key(s, k) {
            let j = choose|j: int| 0 <= j < s.len() && s[j].0 == k;
            assert(r[j].0 == k);
        }
        if k == e.0 {
            assert(r[s.len() as int].0 == k);
        }
    }
}

proof fn lemma_unique_index(s: Entries, k: Seq<char>, i: int)
    requires
        keys_unique(s),
        0 <= i < s.len(),
        s[i].0 == k,
    ensures
        has_key(s, k),
        key_index(s, k) == i,
{
    assert(has_key(s, k));
}

impl PreviewCache {
    /// An empty cache that holds at most `max_size` entries.
    pub fn new(max_size: usize) -> (r: PreviewCache)
        ensures
            r@.entries.len() == 0,
            r@.capacity == max_size,
            r@.wf(),
    {
        let r = PreviewCache { entries: Vec::new(), max_size };
        assert(r@.entries =~= Seq::<(Seq<char>, ContentView)>::empty());
        r
    }

    fn position(&self, path: &String) -> (r: Option<usize>)
        requires
            self@.wf(),
        ensures
            match r {
                Some(i) => i < self@.entries.len() && self@.entries[i as int].0 == path@
                    && key_index(self@.entries, path@) == i,
                None => !has_key(self@.entries, path@),
            },
    {
        let n = self.entries.len();
        let mut i: usize = 0;
        while i < n
            invariant
                n == self.entries@.len(),
                i <= n,
                self@.wf(),
                forall|j: int| 0 <= j < i ==> #[trigger] self.entries@[j].0@ != path@,
            decreases n - i,
        {
            if self.entries[i].0 == *path {
                proof {
                    assert(self@.entries[i as int].0 == path@);
                    lemma_unique_index(self@.entries, path@, i as int);
                }
                return Some(i);
            }
            i = i + 1;
        }
        proof {
            if has_key(self@.entries, path@) {
                let j = choose|j: int| 0 <= j < self@.entries.len() && self@.entries[j].0 == path@;
                assert(self.entries@[j].0@ == path@);
            }
        }
        None
    }

    /// The content cached under `path`, which becomes the most recently used entry.
    pub fn get(&mut self, path: &String) -> (r: Option<PreviewContent>)
        requires
            old(self)@.wf(),
        ensures
            final(self)@ == old(self)@.touched(path@),
            final(self)@.wf(),
            match r {
                Some(c) => old(self)@.lookup(path@) == Some(c@),
                None => old(self)@.lookup(path@) is None,
            },
    {
        match self.position(path) {
            None => None,
            Some(i) => {
                let ghost s = self@.entries;
                let e = self.entries.remove(i);
                let c = e.1.duplicate();
                self.entries.push(e);
                proof {
                    lemma_remove_keeps_unique(s, i as int);
                    lemma_push_new_key_unique(s.remove(i as int), s[i as int]);
                    assert(self@.entries =~= s.remove(i as int).push(s[i as int]));
                }
                Some(c)
            },
        }
    }

    /// Stores `preview` under `path` as the most recently used entry,
    /// evicting the least recently used entry when a new key finds the cache full.
    pub fn insert(&mut self, path: String, preview: PreviewContent)
        requires
            old(self)@.wf(),
        ensures
            final(self)@ == old(self)@.inserted(path@, preview@),
            final(self)@.wf(),
    {
        let ghost s = self@.entries;
        let ghost e = (path@, preview@);
        match self.position(&path) {
            Some(i) => {
                self.entries.remove(i);
                proof {
                    lemma_remove_keeps_unique(s, i as int);
                    assert(self@.entries =~= s.remove(i as int));
                    lemma_push_new_key_unique(s.remove(i as int), e);
                }
            },
            None => {
                if self.entries.len() >= self.max_size && self.entries.len() > 0 {
                    self.entries.remove(0);
                    proof {
                        lemma_remove_keeps_unique(s, 0);
                        assert(self@.entries =~= s.remove(0));
                        assert(s.remove(0) =~= s.subrange(1, s.len() as int));
                        lemma_push_new_key_unique(s.remove(0), e);
                    }
                } else {
                    proof {
                        lemma_push_new_key_unique(s, e);
                    }
                }
            },
        }
        let ghost before = self@.entries;
        self.entries.push((path, preview));
        assert(self@.entries =~= before.push(e));
    }

    /// Whether `path` is cached (does not count as a use).
    pub fn contains(&self, path: &String) -> (r: bool)
        requires
            self@.wf(),
        ensures
            r == self@.contains(path@),
    {
        self.position(path).is_some()
    }

    pub fn len(&self) -> (r: usize)
        ensures
            r == self@.entries.len(),
    {
        self.entries.len()
    }

    pub fn is_empty(&self) -> (r: bool)
        ensures
            r == (self@.entries.len() == 0),
    {
        self.entries.len() == 0
    }

    pub fn capacity(&self) -> (r: usize)
        ensures
            r == self@.capacity,
    {
        self.max_size
    }

    /// Drops every entry; the capacity stays.
    pub fn clear(&mut self)
        ensures
            final(self)@.entries.len() == 0,
            final(self)@.capacity == old(self)@.capacity,
            final(self)@.wf(),
    {
        self.entries.clear();
        assert(self@.entries =~= Seq::<(Seq<char>, ContentView)>::empty());
    }
}

/// The cache after inserting `vs[j]` under `ks[j]` for each `j` in order,
/// with no reads in between.
pub open spec fn insert_all(c: CacheModel, ks: Seq<Seq<char>>, vs: Seq<ContentView>) -> CacheModel
    decreases ks.len(),
{
    if ks.len() == 0 {
        c
    } else {
        insert_all(c, ks.drop_last(), vs.drop_last()).inserted(ks.last(), vs.last())
    }
}

proof fn lemma_fill_distinct(cap: nat, ks: Seq<Seq<char>>, vs: Seq<ContentView>)
    requires
        ks.no_duplicates(),
        vs.len() == ks.len(),
        ks.len() <= cap,
    ensures
        ({
            let r = insert_all(CacheModel { entries: Seq::empty(), capacity: cap }, ks, vs);
            &&& r.capacity == cap
            &&& r.entries.len() == ks.len()
            &&& forall|j: int| 0 <= j < ks.len() ==> #[trigger] r.entries[j] == (ks[j], vs[j])
        }),
    decreases ks.len(),
{
    if ks.len() > 0 {
        let pk = ks.drop_last();
        let pv = vs.drop_last();
        assert forall|a: int, b: int| 0 <= a < pk.len() && 0 <= b < pk.len() && a != b implies pk[a] != pk[b] by {
            assert(ks[a] != ks[b]);
        }
        lemma_fill_distinct(cap, pk, pv);
        let p = insert_all(CacheModel { entries: Seq::empty(), capacity: cap }, pk, pv);
        if has_key(p.entries, ks.last()) {
            let j = choose|j: int| 0 <= j < p.entries.len() && p.entries[j].0 == ks.last();
            assert(ks[j] == ks[ks.len() - 1]);
        }
    }
}

/// With no reads, a full cache of capacity `n` that takes `n + 1` distinct
/// keys one after the other loses exactly the first key inserted.
pub proof fn lemma_first_inserted_is_evicted(n: nat, ks: Seq<Seq<char>>, vs: Seq<ContentView>)
    requires
        n >= 1,
        ks.len() == n + 1,
        vs.len() == ks.len(),
        ks.no_duplicates(),
    ensures
        ({
            let r = insert_all(CacheModel { entries: Seq::empty(), capacity: n }, ks, vs);
            &&& r.wf()
            &&& r.entries.len() == n
            &&& forall|k: Seq<char>| #[trigger] r.contains(k) <==> (ks.contains(k) && k != ks[0])
        }),
{
    let pk = ks.drop_last();
    let pv = vs.drop_last();
    assert forall|a: int, b: int| 0 <= a < pk.len() && 0 <= b < pk.len() && a != b implies pk[a] != pk[b] by {
        assert(ks[a] != ks[b]);
    }
    lemma_fill_distinct(n, pk, pv);
    let p = insert_all(CacheModel { entries: Seq::empty(), capacity: n }, pk, pv);
    let last = ks.last();
    if has_key(p.entries, last) {
        let j = choose|j: int| 0 <= j < p.entries.len() && p.entries[j].0 == last;
        assert(ks[j] == ks[ks.len() - 1]);
    }
    let r = insert_all(CacheModel { entries: Seq::empty(), capacity: n }, ks, vs);
    assert(r.entries == p.entries.subrange(1, n as int).push((last, vs.last())));
    assert forall|a: int, b: int| 0 <= a < r.entries.len() && 0 <= b < r.entries.len() && a != b implies r.entries[a].0 != r.entries[b].0 by {
        assert(r.entries[a].0 == ks[a + 1]);
        assert(r.entries[b].0 == ks[b + 1]);
    }
    assert forall|k: Seq<char>| #[trigger] r.contains(k) <==> (ks.contains(k) && k != ks[0]) by {
        if r.contains(k) {
            let j = choose|j: int| 0 <= j < r.entries.len() && r.entries[j].0 == k;
            assert(r.entries[j].0 == ks[j + 1]);
            assert(ks[0] != ks[j + 1]);
        }
        if ks.contains(k) && k != ks[0] {
            let j = choose|j: int| 0 <= j < ks.len() && ks[j] == k;
            assert(r.entries[j - 1].0 == ks[j]);
        }
    }
}

/// Reading a key of a full cache protects it: when a new key comes in next,
/// the entry evicted is the least recently used among the other keys, and
/// every other entry stays.
pub proof fn lemma_read_protects_from_eviction(c: CacheModel, k: Seq<char>, k2: Seq<char>, v: ContentView)
    requires
        c.wf(),
        c.capacity >= 2,
        c.entries.len() == c.capacity,
        c.contains(k),
        !c.contains(k2),
    ensures
        ({
            let victim = if c.entries[0].0 == k {
                c.entries[1].0
            } else {
                c.entries[0].0
            };
            let r = c.touched(k).inserted(k2, v);
            &&& r.wf()
            &&& r.contains(k)
            &&& r.contains(k2)
            &&& !r.contains(victim)
            &&& forall|x: Seq<char>| #[trigger] r.contains(x) <==> (x == k2 || (c.contains(x) && x != victim))
        }),
{
    let s = c.entries;
    let i = key_index(s, k);
    let t = c.touched(k);
    lemma_remove_keeps_unique(s, i);
    lemma_push_new_key_unique(s.remove(i), s[i]);
    assert(!has_key(t.entries, k2));
    assert(t.entries.len() == c.capacity);
    let rest = t.entries.subrange(1, t.entries.len() as int);
    let victim = if c.entries[0].0 == k {
        c.entries[1].0
    } else {
        c.entries[0].0
    };
    assert(t.entries[0].0 == victim) by {
        if i == 0 {
            assert(s[0].0 == k);
        }
    }
    assert(t.entries.remove(0) =~= rest);
    lemma_remove_keeps_unique(t.entries, 0);
    lemma_push_new_key_unique(rest, (k2, v));
    assert(rest[rest.len() - 1].0 == k);
    let r = c.touched(k).inserted(k2, v);
    assert(r.entries == rest.push((k2, v)));
}

/// After an insert the key is present and holds the new content.
pub proof fn lemma_insert_then_lookup(c: CacheModel, k: Seq<char>, v: ContentView)
    requires
        c.wf(),
    ensures
        c.inserted(k, v).wf(),
        c.inserted(k, v).contains(k),
        c.inserted(k, v).lookup(k) == Some(v),
{
    let s = c.entries;
    let r = c.inserted(k, v);
    if has_key(s, k) {
        let i = key_index(s, k);
        lemma_remove_keeps_unique(s, i);
        lemma_push_new_key_unique(s.remove(i), (k, v));
    } else if s.len() >= c.capacity && s.len() > 0 {
        lemma_remove_keeps_unique(s, 0);
        assert(s.remove(0) =~= s.subrange(1, s.len() as int));
        lemma_push_new_key_unique(s.remove(0), (k, v));
    } else {
        lemma_push_new_key_unique(s, (k, v));
    }
    lemma_unique_index(r.entries, k, r.entries.len() - 1);
}

} // verus!
