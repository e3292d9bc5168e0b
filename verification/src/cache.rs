//! The result cache: a capacity-bounded, time-limited store of encoded
//! transform results.
//!
//! A key joins the resolved path with the normalized transform request; a
//! value holds the encoded bytes and the time of the last insertion or hit.
//! A lookup inside the time-to-live window refreshes the entry (sliding
//! expiry); one after the window treats the entry as absent and removes it.
//! An insertion beyond capacity first evicts the entry with the oldest
//! last-refresh time. Capacity 0 disables the cache entirely.

use vstd::prelude::*;

verus! {

/// The mathematical key: the resolved path together with every field of the
/// normalized transform request.
#[verifier::ext_equal]
pub ghost struct CacheKeyView {
    pub path: Seq<char>,
    pub output: Option<Seq<char>>,
    pub w: Option<u32>,
    pub h: Option<u32>,
    pub dpr: u32,
}

/// The key of one cached transform result: the resolved path and the
/// normalized request (output override as its canonical MIME type, requested
/// dimensions, clamped device pixel ratio). Two requests share an entry
/// exactly when every field is equal.
#[derive(Debug)]
pub struct CacheKey {
    pub path: String,
    pub output: Option<String>,
    pub w: Option<u32>,
    pub h: Option<u32>,
    pub dpr: u32,
}

impl View for CacheKey {
    type V = CacheKeyView;

    open spec fn view(&self) -> CacheKeyView {
        CacheKeyView {
            path: self.path@,
            output: match self.output {
                Some(s) => Some(s@),
                None => None,
            },
            w: self.w,
            h: self.h,
            dpr: self.dpr,
        }
    }
}

impl CacheKey {
    /// A copy of this key with the same fields.
    pub fn duplicate(&self) -> (r: CacheKey)
        ensures
            r@ == self@,
    {
        let r = CacheKey {
            path: self.path.clone(),
            output: match &self.output {
                Some(s) => Some(s.clone()),
                None => None,
            },
            w: self.w,
            h: self.h,
            dpr: self.dpr,
        };
        proof {
            assert(r@ =~= self@);
        }
        r
    }

    /// Whether two keys are the same key: field-for-field equality.
    pub fn key_eq(&self, other: &CacheKey) -> (r: bool)
        ensures
            r == (self@ == other@),
    {
        let paths_eq = self.path == other.path;
        let outputs_eq = match (&self.output, &other.output) {
            (None, None) => true,
            (Some(a), Some(b)) => *a == *b,
            _ => false,
        };
        let w_eq = match (self.w, other.w) {
            (None, None) => true,
            (Some(a), Some(b)) => a == b,
            _ => false,
        };
        let h_eq = match (self.h, other.h) {
            (None, None) => true,
            (Some(a), Some(b)) => a == b,
            _ => false,
        };
        let r = paths_eq && outputs_eq && w_eq && h_eq && self.dpr == other.dpr;
        proof {
            if r {
                assert(self@ =~= other@);
            }
        }
        r
    }
}

/// The mathematical value of one entry: its key, the encoded bytes, and the
/// time of its last insertion or refresh.
#[verifier::ext_equal]
pub ghost struct EntryView {
    pub key: CacheKeyView,
    pub bytes: Seq<u8>,
    pub stamp: u64,
}

/// One stored transform result.
#[derive(Debug)]
pub struct CacheEntry {
    pub key: CacheKey,
    pub bytes: Vec<u8>,
    pub stamp: u64,
}

impl View for CacheEntry {
    type V = EntryView;

    open spec fn view(&self) -> EntryView {
        EntryView { key: self.key@, bytes: self.bytes@, stamp: self.stamp }
    }
}

/// No two entries share a key.
pub open spec fn unique_keys(s: Seq<EntryView>) -> bool {
    forall|i: int, j: int| 0 <= i < j < s.len() ==> s[i].key != s[j].key
}

/// The index of the first entry with the given key, or -1.
pub open spec fn find_idx(s: Seq<EntryView>, k: CacheKeyView) -> int
    decreases s.len(),
{
    if s.len() == 0 {
        -1
    } else if s[0].key == k {
        0
    } else {
        let r = find_idx(s.drop_first(), k);
        if r < 0 {
            -1
        } else {
            r + 1
        }
    }
}

/// `find_idx` finds the first entry with the key, and -1 means no entry has
/// it.
pub proof fn lemma_find_idx(s: Seq<EntryView>, k: CacheKeyView)
    ensures
        find_idx(s, k) == -1 ==> forall|j: int| 0 <= j < s.len() ==> s[j].key != k,
        find_idx(s, k) != -1 ==> 0 <= find_idx(s, k) < s.len() && s[find_idx(s, k)].key == k
            && forall|j: int| 0 <= j < find_idx(s, k) ==> s[j].key != k,
    decreases s.len(),
{
    if s.len() > 0 && s[0].key != k {
        let t = s.drop_first();
        lemma_find_idx(t, k);
        if find_idx(s, k) == -1 {
            assert forall|j: int| 0 <= j < s.len() implies s[j].key != k by {
                if j > 0 {
                    assert(t[j - 1] == s[j]);
                }
            }
        } else {
            let i = find_idx(s, k);
            assert(t[i - 1] == s[i]);
            assert forall|j: int| 0 <= j < i implies s[j].key != k by {
                if j > 0 {
                    assert(t[j - 1] == s[j]);
                }
            }
        }
    }
}

/// `find_idx` returns the position of a key that occurs first at `i`.
pub proof fn lemma_find_idx_at(s: Seq<EntryView>, k: CacheKeyView, i: int)
    requires
        0 <= i < s.len(),
        s[i].key == k,
        forall|j: int| 0 <= j < i ==> s[j].key != k,
    ensures
        find_idx(s, k) == i,
    decreases s.len(),
{
    if i > 0 {
        let t = s.drop_first();
        assert forall|j: int| 0 <= j < i - 1 implies t[j].key != k by {
            assert(t[j] == s[j + 1]);
        }
        assert(t[i - 1] == s[i]);
        lemma_find_idx_at(t, k, i - 1);
    }
}

/// Whether an entry's age at time `now` is still within the time-to-live
/// window.
pub open spec fn fresh_at(e: EntryView, now: u64, ttl: u64) -> bool {
    now - e.stamp <= ttl
}

/// What a lookup at time `now` returns: the bytes of the entry under the
/// key, provided there is one and its age does not exceed the window.
pub open spec fn spec_lookup(s: Seq<EntryView>, k: CacheKeyView, now: u64, ttl: u64) -> Option<
    Seq<u8>,
> {
    let i = find_idx(s, k);
    if i >= 0 && fresh_at(s[i], now, ttl) {
        Some(s[i].bytes)
    } else {
        None
    }
}

/// The store after a lookup at time `now`: a hit refreshes the entry's
/// stamp, an expired entry is removed, and a plain miss changes nothing.
pub open spec fn spec_after_lookup(s: Seq<EntryView>, k: CacheKeyView, now: u64, ttl: u64) -> Seq<
    EntryView,
> {
    let i = find_idx(s, k);
    if i >= 0 {
        if fresh_at(s[i], now, ttl) {
            s.update(i, EntryView { key: k, bytes: s[i].bytes, stamp: now })
        } else {
            s.remove(i)
        }
    } else {
        s
    }
}

/// The index of the first entry with the oldest last-refresh time: the one
/// the eviction policy removes.
pub open spec fn oldest_idx(s: Seq<EntryView>) -> int
    decreases s.len(),
{
    if s.len() <= 1 {
        0
    } else {
        let r = oldest_idx(s.drop_first()) + 1;
        if s[0].stamp <= s[r].stamp {
            0
        } else {
            r
        }
    }
}

/// `oldest_idx` lies in range and names the first minimum of the stamps.
pub proof fn lemma_oldest_idx(s: Seq<EntryView>)
    requires
        s.len() > 0,
    ensures
        0 <= oldest_idx(s) < s.len(),
        forall|j: int| 0 <= j < s.len() ==> s[oldest_idx(s)].stamp <= #[trigger] s[j].stamp,
        forall|j: int| 0 <= j < oldest_idx(s) ==> #[trigger] s[j].stamp > s[oldest_idx(s)].stamp,
    decreases s.len(),
{
    if s.len() > 1 {
        let t = s.drop_first();
        lemma_oldest_idx(t);
        let r = oldest_idx(t) + 1;
        assert(t[r - 1] == s[r]);
        assert forall|j: int| 0 <= j < s.len() implies s[oldest_idx(s)].stamp
            <= #[trigger] s[j].stamp by {
            if j > 0 {
                assert(t[j - 1] == s[j]);
                assert(t[oldest_idx(t)].stamp <= t[j - 1].stamp);
            }
        }
        assert forall|j: int| 0 <= j < oldest_idx(s) implies #[trigger] s[j].stamp
            > s[oldest_idx(s)].stamp by {
            if j > 0 {
                assert(t[j - 1] == s[j]);
                assert(t[j - 1].stamp > t[oldest_idx(t)].stamp);
            }
        }
    }
}

/// The store after inserting bytes under a key at time `now`: nothing with
/// capacity 0; otherwise an entry under the same key is replaced in place,
/// a new key is appended, and at capacity the first-oldest entry makes room
/// first.
pub open spec fn spec_insert(
    s: Seq<EntryView>,
    cap: int,
    k: CacheKeyView,
    b: Seq<u8>,
    now: u64,
) -> Seq<EntryView> {
    let e = EntryView { key: k, bytes: b, stamp: now };
    if cap == 0 {
        s
    } else {
        let i = find_idx(s, k);
        if i >= 0 {
            s.update(i, e)
        } else if s.len() < cap {
            s.push(e)
        } else {
            s.remove(oldest_idx(s)).push(e)
        }
    }
}

/// The result cache. Contracts require and preserve `wf()`: the entry count
/// never exceeds the capacity and no key occurs twice.
#[derive(Debug)]
pub struct ResultCache {
    pub capacity: usize,
    pub ttl: u64,
    pub entries: Vec<CacheEntry>,
}

impl ResultCache {
    /// The entries as their mathematical values, in storage order.
    pub open spec fn view_entries(&self) -> Seq<EntryView> {
        self.entries@.map_values(|e: CacheEntry| e@)
    }

    /// Well-formedness: within capacity, no key twice.
    pub open spec fn wf(&self) -> bool {
        &&& self.entries@.len() <= self.capacity
        &&& unique_keys(self.view_entries())
    }

    /// An empty cache with the given capacity (in entries; 0 disables
    /// caching) and time-to-live window.
    pub fn new(capacity: usize, ttl: u64) -> (r: ResultCache)
        ensures
            r.wf(),
            r.capacity == capacity,
            r.ttl == ttl,
            r.view_entries() == Seq::<EntryView>::empty(),
    {
        let r = ResultCache { capacity, ttl, entries: Vec::new() };
        proof {
            assert(r.view_entries() =~= Seq::<EntryView>::empty());
        }
        r
    }

    /// The position of the entry with this key, if one is stored.
    fn find_entry(&self, key: &CacheKey) -> (r: Option<usize>)
        ensures
            match r {
                Some(i) => i < self.entries@.len() && find_idx(self.view_entries(), key@)
                    == i as int,
                None => find_idx(self.view_entries(), key@) == -1,
            },
    {
        let n = self.entries.len();
        let mut i: usize = 0;
        while i < n
            invariant
                n == self.entries@.len(),
                i <= n,
                forall|j: int| 0 <= j < i ==> self.view_entries()[j].key != key@,
            decreases n - i,
        {
            if self.entries[i].key.key_eq(key) {
                proof {
                    lemma_find_idx_at(self.view_entries(), key@, i as int);
                }
                return Some(i);
            }
            i += 1;
        }
        proof {
            lemma_find_idx(self.view_entries(), key@);
        }
        None
    }

    /// Looks the key up at time `now`. Returns the cached bytes exactly when
    /// an entry under this key is present and no older than the window, and
    /// then refreshes its age; an entry older than the window is treated as
    /// absent and removed.
    pub fn lookup(&mut self, key: &CacheKey, now: u64) -> (r: Option<Vec<u8>>)
        requires
            old(self).wf(),
        ensures
            final(self).wf(),
            final(self).capacity == old(self).capacity,
            final(self).ttl == old(self).ttl,
            (match r {
                Some(b) => spec_lookup(old(self).view_entries(), key@, now, old(self).ttl)
                    == Some(b@),
                None => spec_lookup(old(self).view_entries(), key@, now, old(self).ttl)
                    is None,
            }),
            final(self).view_entries() == spec_after_lookup(old(self).view_entries(), key@,
                now, old(self).ttl),
    {
        let ghost s0 = self.view_entries();
        match self.find_entry(key) {
            None => None,
            Some(i) => {
                let stamp = self.entries[i].stamp;
                let is_fresh = if now >= stamp {
                    now - stamp <= self.ttl
                } else {
                    true
                };
                if is_fresh {
                    let bytes = clone_bytes(&self.entries[i].bytes);
                    let refreshed = CacheEntry {
                        key: self.entries[i].key.duplicate(),
                        bytes: clone_bytes(&self.entries[i].bytes),
                        stamp: now,
                    };
                    let ghost old_entry = s0[i as int];
                    self.entries.set(i, refreshed);
                    proof {
                        assert(refreshed@.key =~= key@) by {
                            lemma_find_idx(s0, key@);
                        }
                        assert(self.view_entries() =~= spec_after_lookup(s0, key@, now,
                            self.ttl));
                        assert(unique_keys(self.view_entries()));
                    }
                    Some(bytes)
                } else {
                    self.entries.remove(i);
                    proof {
                        assert(self.view_entries() =~= spec_after_lookup(s0, key@, now,
                            self.ttl));
                        assert forall|a: int, b: int|
                            0 <= a < b < self.view_entries().len() implies self.view_entries()[
                            a].key != self.view_entries()[b].key by {
                            let f = |x: int| if x < i { x } else { x + 1 };
                            assert(self.view_entries()[a] == s0[f(a)]);
                            assert(self.view_entries()[b] == s0[f(b)]);
                        }
                    }
                    None
                }
            },
        }
    }

    /// Stores bytes under the key at time `now`. With capacity 0 this does
    /// nothing; an entry under the same key is replaced and refreshed; at
    /// capacity, the entry with the first-oldest refresh time is evicted
    /// first. The count stays within capacity.
    pub fn insert(&mut self, key: CacheKey, bytes: Vec<u8>, now: u64)
        requires
            old(self).wf(),
        ensures
            final(self).wf(),
            final(self).capacity == old(self).capacity,
            final(self).ttl == old(self).ttl,
            final(self).view_entries() == spec_insert(old(self).view_entries(),
                old(self).capacity as int, key@, bytes@, now),
    {
        let ghost s0 = self.view_entries();
        if self.capacity == 0 {
            return ;
        }
        let entry = CacheEntry { key, bytes, stamp: now };
        match self.find_entry(&entry.key) {
            Some(i) => {
                proof {
                    lemma_find_idx(s0, entry.key@);
                }
                self.entries.set(i, entry);
                proof {
                    assert(self.view_entries() =~= spec_insert(s0, old(self).capacity as int,
                        s0[i as int].key, self.view_entries()[i as int].bytes, now));
                    assert(unique_keys(self.view_entries()));
                }
            },
            None => {
                proof {
                    lemma_find_idx(s0, entry.key@);
                }
                if self.entries.len() < self.capacity {
                    self.entries.push(entry);
                    proof {
                        assert(self.view_entries() =~= s0.push(
                            EntryView { key: key@, bytes: bytes@, stamp: now }));
                        assert(unique_keys(self.view_entries()));
                    }
                } else {
                    let v = self.find_oldest();
                    let ghost k = entry.key@;
                    self.entries.remove(v);
                    let ghost s1 = self.view_entries();
                    proof {
                        assert(s1 =~= s0.remove(oldest_idx(s0)));
                        assert forall|a: int, b: int| 0 <= a < b < s1.len() implies s1[a].key
                            != s1[b].key by {
                            let f = |x: int| if x < v { x } else { x + 1 };
                            assert(s1[a] == s0[f(a)]);
                            assert(s1[b] == s0[f(b)]);
                        }
                        assert forall|j: int| 0 <= j < s1.len() implies (#[trigger] s1[j]).key
                            != k by {
                            let f = |x: int| if x < v { x } else { x + 1 };
                            assert(s1[j] == s0[f(j)]);
                        }
                    }
                    self.entries.push(entry);
                    proof {
                        let s2 = self.view_entries();
                        assert(s2 =~= s1.push(EntryView { key: k, bytes: bytes@, stamp: now }));
                        assert forall|a: int, b: int| 0 <= a < b < s2.len() implies s2[a].key
                            != s2[b].key by {
                            if b < s2.len() - 1 {
                                assert(s1[a].key != s1[b].key);
                            } else {
                                assert(s1[a].key != k);
                            }
                        }
                        assert(self.view_entries() =~= spec_insert(s0,
                            old(self).capacity as int, key@, bytes@, now));
                    }
                }
            },
        }
    }

    /// The position of the entry the eviction policy removes: the first one
    /// with the oldest last-refresh time.
    fn find_oldest(&self) -> (r: usize)
        requires
            self.entries@.len() > 0,
        ensures
            r < self.entries@.len(),
            r as int == oldest_idx(self.view_entries()),
    {
        let n = self.entries.len();
        let mut best: usize = 0;
        let mut i: usize = 1;
        while i < n
            invariant
                n == self.entries@.len(),
                n > 0,
                best < i,
                1 <= i <= n,
                forall|j: int| 0 <= j < i ==> self.view_entries()[best as int].stamp
                    <= self.view_entries()[j].stamp,
                forall|j: int| 0 <= j < best ==> self.view_entries()[j].stamp
                    > self.view_entries()[best as int].stamp,
            decreases n - i,
        {
            if self.entries[i].stamp < self.entries[best].stamp {
                best = i;
            }
            i += 1;
        }
        proof {
            lemma_oldest_idx_at(self.view_entries(), best as int);
        }
        best
    }
}

/// `oldest_idx` names the position of a first minimum of the stamps.
proof fn lemma_oldest_idx_at(s: Seq<EntryView>, i: int)
    requires
        0 <= i < s.len(),
        forall|j: int| 0 <= j < s.len() ==> s[i].stamp <= s[j].stamp,
        forall|j: int| 0 <= j < i ==> s[j].stamp > s[i].stamp,
    ensures
        oldest_idx(s) == i,
    decreases s.len(),
{
    if s.len() > 1 {
        let t = s.drop_first();
        let r = oldest_idx(t) + 1;
        lemma_oldest_idx(t);
        assert(t[r - 1] == s[r]);
        if i == 0 {
            assert(t[i] == s[i + 1]);
        } else {
            assert forall|j: int| 0 <= j < t.len() implies t[i - 1].stamp
                <= #[trigger] t[j].stamp by {
                assert(t[j] == s[j + 1]);
                assert(t[i - 1] == s[i]);
            }
            assert forall|j: int| 0 <= j < i - 1 implies #[trigger] t[j].stamp
                > t[i - 1].stamp by {
                assert(t[j] == s[j + 1]);
                assert(t[i - 1] == s[i]);
            }
            lemma_oldest_idx_at(t, i - 1);
        }
    }
}

/// A stored entry looked up within the time-to-live window is answered with
/// exactly the stored bytes: as long as an entry stays fresh, every lookup
/// of its key returns byte-identical output.
pub proof fn lemma_hit_returns_entry(
    s: Seq<EntryView>,
    k: CacheKeyView,
    i: int,
    now: u64,
    ttl: u64,
)
    requires
        unique_keys(s),
        0 <= i < s.len(),
        s[i].key == k,
        now - s[i].stamp <= ttl,
    ensures
        spec_lookup(s, k, now, ttl) == Some(s[i].bytes),
{
    lemma_find_idx(s, k);
    let fi = find_idx(s, k);
    assert(fi != -1);
    if fi < i {
        assert(s[fi].key != s[i].key);
    } else if fi > i {
        assert(s[i].key != s[fi].key);
    }
}

/// An entry whose age at `now` exceeds the time-to-live window is treated
/// as absent: the lookup misses, and the caller recomputes the result.
pub proof fn lemma_expired_is_miss(
    s: Seq<EntryView>,
    k: CacheKeyView,
    i: int,
    now: u64,
    ttl: u64,
)
    requires
        unique_keys(s),
        0 <= i < s.len(),
        s[i].key == k,
        now - s[i].stamp > ttl,
    ensures
        spec_lookup(s, k, now, ttl) is None,
{
    lemma_find_idx(s, k);
    let fi = find_idx(s, k);
    assert(fi != -1);
    if fi < i {
        assert(s[fi].key != s[i].key);
    } else if fi > i {
        assert(s[i].key != s[fi].key);
    }
}

/// After an insertion into a cache of nonzero capacity, a lookup of the same
/// key within the time-to-live window returns exactly the inserted bytes.
pub proof fn lemma_insert_then_lookup(
    s: Seq<EntryView>,
    cap: int,
    k: CacheKeyView,
    b: Seq<u8>,
    t: u64,
    now: u64,
    ttl: u64,
)
    requires
        unique_keys(s),
        cap >= 1,
        now - t <= ttl,
    ensures
        spec_lookup(spec_insert(s, cap, k, b, t), k, now, ttl) == Some(b),
{
    let e = EntryView { key: k, bytes: b, stamp: t };
    let s2 = spec_insert(s, cap, k, b, t);
    lemma_find_idx(s, k);
    let i = find_idx(s, k);
    if i >= 0 {
        assert forall|a: int, c: int| 0 <= a < c < s2.len() implies s2[a].key != s2[c].key by {
            assert(s2[a].key == s[a].key);
            assert(s2[c].key == s[c].key);
        }
        lemma_hit_returns_entry(s2, k, i, now, ttl);
    } else if s.len() < cap {
        assert(s2 == s.push(e));
        assert forall|a: int, c: int| 0 <= a < c < s2.len() implies s2[a].key != s2[c].key by {
            if c < s.len() {
                assert(s[a].key != s[c].key);
            } else {
                assert(s[a].key != k);
            }
        }
        lemma_hit_returns_entry(s2, k, s.len() as int, now, ttl);
    } else {
        let v = oldest_idx(s);
        lemma_oldest_idx(s);
        let s1 = s.remove(v);
        assert(s2 == s1.push(e));
        assert forall|j: int| 0 <= j < s1.len() implies (#[trigger] s1[j]).key != k by {
            let f = |x: int| if x < v { x } else { x + 1 };
            assert(s1[j] == s[f(j)]);
        }
        assert forall|a: int, c: int| 0 <= a < c < s1.len() implies s1[a].key != s1[c].key by {
            let f = |x: int| if x < v { x } else { x + 1 };
            assert(s1[a] == s[f(a)]);
            assert(s1[c] == s[f(c)]);
        }
        assert forall|a: int, c: int| 0 <= a < c < s2.len() implies s2[a].key != s2[c].key by {
            if c < s2.len() - 1 {
                assert(s1[a].key != s1[c].key);
            } else {
                assert(s1[a].key != k);
            }
        }
        assert(s2[s2.len() - 1] == e);
        lemma_hit_returns_entry(s2, k, s2.len() - 1, now, ttl);
    }
}

/// A hit refreshes the entry, so a further lookup of the same key within
/// the window of that hit answers with the same bytes again: repeated
/// identical requests stay byte-identical for as long as each is made
/// within the window of the one before.
pub proof fn lemma_hit_stays_hit(
    s: Seq<EntryView>,
    k: CacheKeyView,
    now: u64,
    now2: u64,
    ttl: u64,
)
    requires
        unique_keys(s),
        spec_lookup(s, k, now, ttl) is Some,
        now2 - now <= ttl,
    ensures
        spec_lookup(spec_after_lookup(s, k, now, ttl), k, now2, ttl) == spec_lookup(
            s, k, now, ttl,
        ),
{
    lemma_find_idx(s, k);
    let i = find_idx(s, k);
    let s2 = spec_after_lookup(s, k, now, ttl);
    assert forall|a: int, c: int| 0 <= a < c < s2.len() implies s2[a].key != s2[c].key by {
        assert(s2[a].key == s[a].key);
        assert(s2[c].key == s[c].key);
    }
    lemma_hit_returns_entry(s2, k, i, now2, ttl);
}

/// An insertion never pushes the store past the capacity: the cache holds at
/// most `cap` entries afterwards whenever it did before.
pub proof fn lemma_insert_within_capacity(
    s: Seq<EntryView>,
    cap: int,
    k: CacheKeyView,
    b: Seq<u8>,
    t: u64,
)
    requires
        s.len() <= cap,
    ensures
        spec_insert(s, cap, k, b, t).len() <= cap,
{
    lemma_find_idx(s, k);
    if cap != 0 && find_idx(s, k) < 0 && s.len() >= cap {
        lemma_oldest_idx(s);
    }
}

/// A copy of a byte buffer with the same contents.
fn clone_bytes(v: &Vec<u8>) -> (r: Vec<u8>)
    ensures
        r@ == v@,
{
    let r = v.clone();
    proof {
        assert(r@ =~= v@);
    }
    r
}

} // verus!
