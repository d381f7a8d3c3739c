//! The report cache: a time-windowed, capacity-bounded memo of report
//! outcomes, keyed by remote address and abuse-database configuration,
//! with a single-flight registry.
//!
//! An entry lives for a fixed lifespan from insertion; an expired entry
//! is treated as absent on the next lookup. When the capacity is
//! exceeded, the least recently inserted entry is evicted. The
//! single-flight registry collapses concurrent duplicate requests for
//! one key into a single in-flight call: a caller first asks [`ReportCache::begin`]
//! and only sends when told to, then hands the outcome back with
//! [`ReportCache::complete`]. The surrounding mutual exclusion lives
//! outside the library; every transition here is one critical section.

use vstd::prelude::*;
use crate::addr::IpAddress;
use crate::settings::{AbuseDbConfig, AbuseDbConfigView};

verus! {

/// The default capacity of the report cache, in distinct keys.
pub const REPORT_CACHE_CAPACITY: usize = 50;

/// The default lifespan of a cache entry, in seconds.
pub const REPORT_CACHE_TTL_SECS: u64 = 900;

/// A report-cache key: one remote address under one abuse-database
/// configuration. Identical configurations dedupe together.
#[derive(Clone, Debug)]
pub struct ReportKey {
    pub ip: IpAddress,
    pub config: AbuseDbConfig,
}

/// The ghost image of a report-cache key.
pub struct ReportKeyView {
    pub ip: IpAddress,
    pub config: AbuseDbConfigView,
}

impl View for ReportKey {
    type V = ReportKeyView;

    open spec fn view(&self) -> ReportKeyView {
        ReportKeyView { ip: self.ip, config: self.config@ }
    }
}

impl DeepView for ReportKey {
    type V = ReportKeyView;

    open spec fn deep_view(&self) -> ReportKeyView {
        self@
    }
}

impl ReportKey {
    /// Structural equality of two cache keys.
    pub fn same_as(&self, other: &ReportKey) -> (r: bool)
        ensures
            r == (self@ == other@),
    {
        self.ip == other.ip && self.config.same_as(&other.config)
    }

    /// A copy with the same view.
    pub fn duplicate(&self) -> (r: ReportKey)
        ensures
            r@ == self@,
    {
        ReportKey { ip: self.ip, config: self.config.duplicate() }
    }
}

/// One cached outcome with its insertion time.
#[derive(Clone, Debug)]
pub struct CacheEntry {
    pub key: ReportKey,
    pub value: bool,
    pub inserted_at: u64,
}

/// The ghost image of a cache entry.
pub struct CacheEntryView {
    pub key: ReportKeyView,
    pub value: bool,
    pub inserted_at: u64,
}

impl View for CacheEntry {
    type V = CacheEntryView;

    open spec fn view(&self) -> CacheEntryView {
        CacheEntryView { key: self.key@, value: self.value, inserted_at: self.inserted_at }
    }
}

impl DeepView for CacheEntry {
    type V = CacheEntryView;

    open spec fn deep_view(&self) -> CacheEntryView {
        self@
    }
}

/// The report cache. Entries are kept in insertion order, oldest first;
/// the in-flight registry holds the keys whose single call is under way.
pub struct ReportCache {
    pub entries: Vec<CacheEntry>,
    pub in_flight: Vec<ReportKey>,
    pub capacity: usize,
    pub ttl: u64,
}

/// The ghost image of the whole cache.
pub struct ReportCacheView {
    pub entries: Seq<CacheEntryView>,
    pub in_flight: Seq<ReportKeyView>,
    pub capacity: nat,
    pub ttl: u64,
}

impl View for ReportCache {
    type V = ReportCacheView;

    open spec fn view(&self) -> ReportCacheView {
        ReportCacheView {
            entries: self.entries.deep_view(),
            in_flight: self.in_flight.deep_view(),
            capacity: self.capacity as nat,
            ttl: self.ttl,
        }
    }
}

impl ReportCacheView {
    /// Well-formedness: a positive capacity that bounds the entries,
    /// pairwise distinct entry keys, and a duplicate-free in-flight
    /// registry.
    pub open spec fn wf(self) -> bool {
        &&& self.capacity >= 1
        &&& self.entries.len() <= self.capacity
        &&& forall|i: int, j: int|
            0 <= i < j < self.entries.len() ==> (#[trigger] self.entries[i]).key != (
            #[trigger] self.entries[j]).key
        &&& forall|i: int, j: int|
            0 <= i < j < self.in_flight.len() ==> #[trigger] self.in_flight[i] != (
            #[trigger] self.in_flight[j])
    }
}

/// An entry is live at `now` when less than the lifespan has passed
/// since its insertion.
pub open spec fn spec_live(e: CacheEntryView, ttl: u64, now: u64) -> bool {
    (now as int) < e.inserted_at + ttl
}

/// Index `i` holds a live entry for key `k`.
pub open spec fn spec_entry_hit(c: ReportCacheView, k: ReportKeyView, now: u64, i: int) -> bool {
    0 <= i < c.entries.len() && c.entries[i].key == k && spec_live(c.entries[i], c.ttl, now)
}

/// What a lookup yields: the cached outcome of the live entry for the
/// key, or nothing when no live entry exists (expired entries count as
/// absent).
pub open spec fn spec_lookup(c: ReportCacheView, k: ReportKeyView, now: u64) -> Option<bool> {
    if exists|i: int| spec_entry_hit(c, k, now, i) {
        Some(c.entries[choose|i: int| spec_entry_hit(c, k, now, i)].value)
    } else {
        None
    }
}

/// The index of the first entry for the key, live or not.
pub open spec fn spec_first_match(es: Seq<CacheEntryView>, k: ReportKeyView) -> Option<int>
    decreases es.len(),
{
    if es.len() == 0 {
        None
    } else if es[0].key == k {
        Some(0)
    } else {
        match spec_first_match(es.drop_first(), k) {
            Some(i) => Some(i + 1),
            None => None,
        }
    }
}

/// The index of the first occurrence of the key in the registry.
pub open spec fn spec_first_key(ks: Seq<ReportKeyView>, k: ReportKeyView) -> Option<int>
    decreases ks.len(),
{
    if ks.len() == 0 {
        None
    } else if ks[0] == k {
        Some(0)
    } else {
        match spec_first_key(ks.drop_first(), k) {
            Some(i) => Some(i + 1),
            None => None,
        }
    }
}

proof fn lemma_first_match_props(es: Seq<CacheEntryView>, k: ReportKeyView)
    ensures
        spec_first_match(es, k) is Some ==> ({
            let i = spec_first_match(es, k)->0;
            &&& 0 <= i < es.len()
            &&& es[i].key == k
            &&& forall|j: int| 0 <= j < i ==> (#[trigger] es[j]).key != k
        }),
        spec_first_match(es, k) is None ==> forall|j: int|
            0 <= j < es.len() ==> (#[trigger] es[j]).key != k,
    decreases es.len(),
{
    if es.len() == 0 {
    } else if es[0].key == k {
    } else {
        let tail = es.drop_first();
        lemma_first_match_props(tail, k);
        match spec_first_match(tail, k) {
            Some(ti) => {
                assert(spec_first_match(es, k) == Some(ti + 1));
                assert(es[ti + 1] == tail[ti]);
                assert forall|j: int| 0 <= j < ti + 1 implies (#[trigger] es[j]).key != k by {
                    if j > 0 {
                        assert(es[j] == tail[j - 1]);
                    }
                }
            },
            None => {
                assert forall|j: int| 0 <= j < es.len() implies (#[trigger] es[j]).key != k by {
                    if j > 0 {
                        assert(es[j] == tail[j - 1]);
                    }
                }
            },
        }
    }
}

proof fn lemma_first_key_props(ks: Seq<ReportKeyView>, k: ReportKeyView)
    ensures
        spec_first_key(ks, k) is Some ==> ({
            let i = spec_first_key(ks, k)->0;
            &&& 0 <= i < ks.len()
            &&& ks[i] == k
            &&& forall|j: int| 0 <= j < i ==> #[trigger] ks[j] != k
        }),
        spec_first_key(ks, k) is None ==> forall|j: int| 0 <= j < ks.len() ==> #[trigger] ks[j] != k,
    decreases ks.len(),
{
    if ks.len() == 0 {
    } else if ks[0] == k {
    } else {
        let tail = ks.drop_first();
        lemma_first_key_props(tail, k);
        match spec_first_key(tail, k) {
            Some(ti) => {
                assert(spec_first_key(ks, k) == Some(ti + 1));
                assert(ks[ti + 1] == tail[ti]);
                assert forall|j: int| 0 <= j < ti + 1 implies #[trigger] ks[j] != k by {
                    if j > 0 {
                        assert(ks[j] == tail[j - 1]);
                    }
                }
            },
            None => {
                assert forall|j: int| 0 <= j < ks.len() implies #[trigger] ks[j] != k by {
                    if j > 0 {
                        assert(ks[j] == tail[j - 1]);
                    }
                }
            },
        }
    }
}

/// The entries after removing the first (and, in a well-formed cache,
/// only) entry for the key.
pub open spec fn spec_remove_key(es: Seq<CacheEntryView>, k: ReportKeyView) -> Seq<CacheEntryView> {
    match spec_first_match(es, k) {
        Some(i) => es.remove(i),
        None => es,
    }
}

/// The entries after caching one outcome: any previous entry for the
/// key is replaced, the fresh entry goes to the back, and when the
/// capacity would be exceeded the front (least recently inserted) entry
/// is evicted.
pub open spec fn spec_insert_entries(
    es: Seq<CacheEntryView>,
    k: ReportKeyView,
    value: bool,
    now: u64,
    capacity: nat,
) -> Seq<CacheEntryView> {
    let appended = spec_remove_key(es, k).push(
        CacheEntryView { key: k, value, inserted_at: now },
    );
    if appended.len() > capacity {
        appended.subrange(1, appended.len() as int)
    } else {
        appended
    }
}

/// The registry after the key's in-flight call finished.
pub open spec fn spec_drop_in_flight(ks: Seq<ReportKeyView>, k: ReportKeyView) -> Seq<
    ReportKeyView,
> {
    match spec_first_key(ks, k) {
        Some(i) => ks.remove(i),
        None => ks,
    }
}

/// What `begin` answers: a live cached outcome wins; otherwise a key
/// already in flight waits; otherwise the caller must send.
#[derive(Clone, Copy, PartialEq, Eq, Structural, Debug)]
pub enum CacheDecision {
    Hit { value: bool },
    InFlight,
    MustSend,
}

/// The decision `begin` takes for a key at a time.
pub open spec fn spec_begin_decision(c: ReportCacheView, k: ReportKeyView, now: u64) -> CacheDecision {
    match spec_lookup(c, k, now) {
        Some(v) => CacheDecision::Hit { value: v },
        None => if c.in_flight.contains(k) {
            CacheDecision::InFlight
        } else {
            CacheDecision::MustSend
        },
    }
}

/// The cache state after `begin`: unchanged, except that a key the
/// caller must send for is registered as in flight.
pub open spec fn spec_begin_state(c: ReportCacheView, k: ReportKeyView, now: u64) -> ReportCacheView {
    if spec_begin_decision(c, k, now) is MustSend {
        ReportCacheView {
            entries: c.entries,
            in_flight: c.in_flight.push(k),
            capacity: c.capacity,
            ttl: c.ttl,
        }
    } else {
        c
    }
}

/// The cache state after `complete`: the key leaves the in-flight
/// registry, and a cacheable outcome is inserted with a fresh lifespan.
pub open spec fn spec_complete_state(
    c: ReportCacheView,
    k: ReportKeyView,
    value: bool,
    cache_it: bool,
    now: u64,
) -> ReportCacheView {
    ReportCacheView {
        entries: if cache_it {
            spec_insert_entries(c.entries, k, value, now, c.capacity)
        } else {
            c.entries
        },
        in_flight: spec_drop_in_flight(c.in_flight, k),
        capacity: c.capacity,
        ttl: c.ttl,
    }
}

fn find_entry_idx(entries: &Vec<CacheEntry>, key: &ReportKey) -> (r: Option<usize>)
    ensures
        spec_first_match(entries.deep_view(), key@) is Some ==> r is Some && r->0
            == spec_first_match(entries.deep_view(), key@)->0,
        spec_first_match(entries.deep_view(), key@) is None ==> r is None,
{
    let ghost es = entries.deep_view();
    let n = entries.len();
    let mut i: usize = 0;
    while i < n
        invariant
            n == entries@.len(),
            es == entries.deep_view(),
            0 <= i <= n,
            forall|j: int| 0 <= j < i ==> (#[trigger] es[j]).key != key@,
        decreases n - i,
    {
        if entries[i].key.same_as(key) {
            proof {
                lemma_first_match_props(es, key@);
                assert(es[i as int] == entries@[i as int]@);
                assert(es[i as int].key == key@);
                let found = spec_first_match(es, key@);
                if found is None {
                    assert(es[i as int].key != key@);
                }
                let i0 = found->0;
                if i0 < i {
                    assert(es[i0].key == key@);
                }
                if i0 > i {
                    assert(es[i as int].key != key@);
                }
            }
            return Some(i);
        }
        proof {
            assert(es[i as int] == entries@[i as int]@);
        }
        i = i + 1;
    }
    proof {
        lemma_first_match_props(es, key@);
        if spec_first_match(es, key@) is Some {
            let i0 = spec_first_match(es, key@)->0;
            assert(es[i0].key != key@);
        }
    }
    None
}

fn find_key_idx(keys: &Vec<ReportKey>, key: &ReportKey) -> (r: Option<usize>)
    ensures
        spec_first_key(keys.deep_view(), key@) is Some ==> r is Some && r->0 == spec_first_key(
            keys.deep_view(),
            key@,
        )->0,
        spec_first_key(keys.deep_view(), key@) is None ==> r is None,
{
    let ghost ks = keys.deep_view();
    let n = keys.len();
    let mut i: usize = 0;
    while i < n
        invariant
            n == keys@.len(),
            ks == keys.deep_view(),
            0 <= i <= n,
            forall|j: int| 0 <= j < i ==> #[trigger] ks[j] != key@,
        decreases n - i,
    {
        if keys[i].same_as(key) {
            proof {
                lemma_first_key_props(ks, key@);
                assert(ks[i as int] == keys@[i as int]@);
                assert(ks[i as int] == key@);
                let found = spec_first_key(ks, key@);
                if found is None {
                    assert(ks[i as int] != key@);
                }
                let i0 = found->0;
                if i0 < i {
                    assert(ks[i0] == key@);
                }
                if i0 > i {
                    assert(ks[i as int] != key@);
                }
            }
            return Some(i);
        }
        proof {
            assert(ks[i as int] == keys@[i as int]@);
        }
        i = i + 1;
    }
    proof {
        lemma_first_key_props(ks, key@);
        if spec_first_key(ks, key@) is Some {
            let i0 = spec_first_key(ks, key@)->0;
            assert(ks[i0] != key@);
        }
    }
    None
}

impl ReportCache {
    /// An empty cache with the given capacity (in distinct keys) and
    /// entry lifespan (in seconds).
    pub fn new(capacity: usize, ttl: u64) -> (r: ReportCache)
        requires
            capacity >= 1,
        ensures
            r@.wf(),
            r@.entries == Seq::<CacheEntryView>::empty(),
            r@.in_flight == Seq::<ReportKeyView>::empty(),
            r@.capacity == capacity as nat,
            r@.ttl == ttl,
    {
        let r = ReportCache { entries: Vec::new(), in_flight: Vec::new(), capacity, ttl };
        proof {
            assert(r@.entries =~= Seq::<CacheEntryView>::empty());
            assert(r@.in_flight =~= Seq::<ReportKeyView>::empty());
        }
        r
    }

    /// An empty cache with the default capacity and lifespan.
    pub fn with_defaults() -> (r: ReportCache)
        ensures
            r@.wf(),
            r@.entries == Seq::<CacheEntryView>::empty(),
            r@.in_flight == Seq::<ReportKeyView>::empty(),
            r@.capacity == REPORT_CACHE_CAPACITY as nat,
            r@.ttl == REPORT_CACHE_TTL_SECS,
    {
        ReportCache::new(REPORT_CACHE_CAPACITY, REPORT_CACHE_TTL_SECS)
    }

    /// Looks the key up: the cached outcome of its live entry, or
    /// nothing when the key is absent or its entry has expired.
    pub fn lookup(&self, key: &ReportKey, now: u64) -> (r: Option<bool>)
        requires
            self@.wf(),
        ensures
            r == spec_lookup(self@, key@, now),
    {
        let n = self.entries.len();
        let mut i: usize = 0;
        while i < n
            invariant
                self@.wf(),
                n == self.entries@.len(),
                0 <= i <= n,
                forall|j: int| 0 <= j < i ==> !spec_entry_hit(self@, key@, now, j),
            decreases n - i,
        {
            let e = &self.entries[i];
            let live = (now as u128) < (e.inserted_at as u128) + (self.ttl as u128);
            proof {
                assert(self@.entries[i as int] == self.entries@[i as int]@);
            }
            if live && e.key.same_as(key) {
                proof {
                    assert(spec_entry_hit(self@, key@, now, i as int));
                    let i0 = choose|j: int| spec_entry_hit(self@, key@, now, j);
                    assert(spec_entry_hit(self@, key@, now, i0));
                    if i0 != i {
                        assert(self@.entries[i0].key == self@.entries[i as int].key);
                        assert(false);
                    }
                }
                return Some(e.value);
            }
            i = i + 1;
        }
        proof {
            if exists|j: int| spec_entry_hit(self@, key@, now, j) {
                let j = choose|j: int| spec_entry_hit(self@, key@, now, j);
                assert(!spec_entry_hit(self@, key@, now, j));
            }
        }
        None
    }

    /// Asks to report under this key now. A live cached outcome is
    /// handed back without any call; a key whose call is already in
    /// flight is told to wait for that call's outcome; otherwise the
    /// caller is told to send, and the key is registered as in flight
    /// until `complete` is called for it.
    pub fn begin(&mut self, key: &ReportKey, now: u64) -> (r: CacheDecision)
        requires
            old(self)@.wf(),
        ensures
            r == spec_begin_decision(old(self)@, key@, now),
            final(self)@ == spec_begin_state(old(self)@, key@, now),
            final(self)@.wf(),
    {
        if let Some(v) = self.lookup(key, now) {
            return CacheDecision::Hit { value: v };
        }
        match find_key_idx(&self.in_flight, key) {
            Some(_) => {
                proof {
                    lemma_first_key_props(self@.in_flight, key@);
                    let i0 = spec_first_key(self@.in_flight, key@)->0;
                    assert(self@.in_flight[i0] == key@);
                    assert(self@.in_flight.contains(key@));
                }
                CacheDecision::InFlight
            },
            None => {
                proof {
                    lemma_first_key_props(self@.in_flight, key@);
                    if self@.in_flight.contains(key@) {
                        let i0 = choose|j: int|
                            0 <= j < self@.in_flight.len() && self@.in_flight[j] == key@;
                        assert(self@.in_flight[i0] != key@);
                    }
                }
                let ghost pre = self@;
                self.in_flight.push(key.duplicate());
                proof {
                    assert(self@.in_flight =~= pre.in_flight.push(key@));
                    assert(self@.entries =~= pre.entries);
                    assert forall|i: int, j: int|
                        0 <= i < j < self@.in_flight.len() implies (#[trigger] self@.in_flight[i])
                        != (#[trigger] self@.in_flight[j]) by {
                        if j == self@.in_flight.len() - 1 {
                            if self@.in_flight[i] == key@ {
                                assert(pre.in_flight[i] == key@);
                                assert(pre.in_flight.contains(key@));
                            }
                        }
                    }
                }
                CacheDecision::MustSend
            },
        }
    }

    /// Hands back the outcome of the key's call: the key leaves the
    /// in-flight registry, and when the outcome is cacheable it is
    /// stored with a fresh lifespan, evicting the least recently
    /// inserted entry if the cache is full.
    pub fn complete(&mut self, key: &ReportKey, value: bool, cache_it: bool, now: u64)
        requires
            old(self)@.wf(),
        ensures
            final(self)@ == spec_complete_state(old(self)@, key@, value, cache_it, now),
            final(self)@.wf(),
    {
        let ghost pre = self@;
        proof {
            lemma_first_key_props(pre.in_flight, key@);
        }
        match find_key_idx(&self.in_flight, key) {
            Some(i) => {
                let ghost prev_vec = self.in_flight@;
                self.in_flight.remove(i);
                proof {
                    assert forall|x: int|
                        0 <= x < self@.in_flight.len() implies self@.in_flight[x]
                        == pre.in_flight.remove(i as int)[x] by {
                        assert(self.in_flight@[x] == prev_vec.remove(i as int)[x]);
                        if x < i {
                            assert(prev_vec.remove(i as int)[x] == prev_vec[x]);
                        } else {
                            assert(prev_vec.remove(i as int)[x] == prev_vec[x + 1]);
                        }
                    }
                    assert(self@.in_flight =~= pre.in_flight.remove(i as int));
                }
            },
            None => {},
        }
        proof {
            assert(self@.in_flight == spec_drop_in_flight(pre.in_flight, key@));
            assert(self@.entries =~= pre.entries);
        }
        if cache_it {
            let ghost before_insert = self@.entries;
            proof {
                lemma_first_match_props(before_insert, key@);
            }
            match find_entry_idx(&self.entries, key) {
                Some(i) => {
                    let ghost prev_vec = self.entries@;
                    self.entries.remove(i);
                    proof {
                        assert forall|x: int|
                            0 <= x < self@.entries.len() implies self@.entries[x]
                            == before_insert.remove(i as int)[x] by {
                            assert(self.entries@[x] == prev_vec.remove(i as int)[x]);
                            if x < i {
                                assert(prev_vec.remove(i as int)[x] == prev_vec[x]);
                            } else {
                                assert(prev_vec.remove(i as int)[x] == prev_vec[x + 1]);
                            }
                        }
                        assert(self@.entries =~= before_insert.remove(i as int));
                    }
                },
                None => {},
            }
            proof {
                assert(self@.entries == spec_remove_key(pre.entries, key@));
            }
            let ghost removed = self@.entries;
            let mut evicted = false;
            if self.entries.len() == self.capacity {
                self.entries.remove(0);
                evicted = true;
                proof {
                    assert(self@.entries =~= removed.subrange(1, removed.len() as int));
                }
            }
            let ghost kept = self@.entries;
            self.entries.push(CacheEntry { key: key.duplicate(), value, inserted_at: now });
            proof {
                assert(self@.entries =~= kept.push(
                    CacheEntryView { key: key@, value, inserted_at: now },
                ));
                let appended = removed.push(CacheEntryView { key: key@, value, inserted_at: now });
                if evicted {
                    assert(self@.entries =~= appended.subrange(1, appended.len() as int));
                }
                assert(self@.entries == spec_insert_entries(
                    pre.entries,
                    key@,
                    value,
                    now,
                    pre.capacity,
                ));
                lemma_complete_preserves_wf(pre, key@, value, cache_it, now);
            }
        } else {
            proof {
                lemma_complete_preserves_wf(pre, key@, value, cache_it, now);
            }
        }
    }
}

proof fn lemma_remove_keeps_distinct_keys(es: Seq<CacheEntryView>, k: ReportKeyView)
    requires
        forall|i: int, j: int|
            0 <= i < j < es.len() ==> (#[trigger] es[i]).key != (#[trigger] es[j]).key,
    ensures
        forall|i: int, j: int|
            0 <= i < j < spec_remove_key(es, k).len() ==> (#[trigger] spec_remove_key(es, k)[i]).key
                != (#[trigger] spec_remove_key(es, k)[j]).key,
{
    lemma_first_match_props(es, k);
    match spec_first_match(es, k) {
        Some(m) => {
            let r = es.remove(m);
            assert forall|i: int, j: int| 0 <= i < j < r.len() implies (#[trigger] r[i]).key != (
            #[trigger] r[j]).key by {
                let i0: int = if i < m {
                    i
                } else {
                    i + 1
                };
                let j0: int = if j < m {
                    j
                } else {
                    j + 1
                };
                assert(r[i] == es[i0]);
                assert(r[j] == es[j0]);
            }
        },
        None => {},
    }
}

proof fn lemma_remove_keeps_distinct_keys_list(ks: Seq<ReportKeyView>, k: ReportKeyView)
    requires
        forall|i: int, j: int| 0 <= i < j < ks.len() ==> #[trigger] ks[i] != #[trigger] ks[j],
    ensures
        forall|i: int, j: int|
            0 <= i < j < spec_drop_in_flight(ks, k).len() ==> (#[trigger] spec_drop_in_flight(
                ks,
                k,
            )[i]) != (#[trigger] spec_drop_in_flight(ks, k)[j]),
{
    lemma_first_key_props(ks, k);
    match spec_first_key(ks, k) {
        Some(m) => {
            let r = ks.remove(m);
            assert forall|i: int, j: int| 0 <= i < j < r.len() implies (#[trigger] r[i]) != (
            #[trigger] r[j]) by {
                let i0: int = if i < m {
                    i
                } else {
                    i + 1
                };
                let j0: int = if j < m {
                    j
                } else {
                    j + 1
                };
                assert(r[i] == ks[i0]);
                assert(r[j] == ks[j0]);
            }
        },
        None => {},
    }
}

/// Single flight: once `begin` has told one caller to send for a key,
/// a second `begin` for the same key never tells another caller to
/// send, at any time, until the first call completes.
pub proof fn lemma_single_flight(c: ReportCacheView, k: ReportKeyView, now1: u64, now2: u64)
    requires
        c.wf(),
        spec_begin_decision(c, k, now1) is MustSend,
    ensures
        !(spec_begin_decision(spec_begin_state(c, k, now1), k, now2) is MustSend),
{
    let c1 = spec_begin_state(c, k, now1);
    assert(c1.in_flight == c.in_flight.push(k));
    assert(c1.in_flight[c1.in_flight.len() - 1] == k);
    assert(c1.in_flight.contains(k));
}

/// Dedup window: after a cacheable outcome was completed for a key,
/// `begin` answers every caller with that cached outcome — no further
/// send — as long as less than the lifespan has passed since insertion.
pub proof fn lemma_window_hit(
    c: ReportCacheView,
    k: ReportKeyView,
    value: bool,
    now1: u64,
    now2: u64,
)
    requires
        c.wf(),
        (now2 as int) < now1 + c.ttl,
    ensures
        spec_begin_decision(spec_complete_state(c, k, value, true, now1), k, now2)
            == (CacheDecision::Hit { value }),
{
    let c1 = spec_complete_state(c, k, value, true, now1);
    lemma_complete_preserves_wf(c, k, value, true, now1);
    let fresh = CacheEntryView { key: k, value, inserted_at: now1 };
    let appended = spec_remove_key(c.entries, k).push(fresh);
    let last = c1.entries.len() - 1;
    assert(c1.entries[last] == fresh);
    assert(spec_entry_hit(c1, k, now2, last));
    let i0 = choose|i: int| spec_entry_hit(c1, k, now2, i);
    assert(spec_entry_hit(c1, k, now2, i0));
    if i0 != last {
        assert(c1.entries[i0].key == c1.entries[last].key);
        assert(false);
    }
}

/// Capacity eviction: caching a fresh key in a full cache drops exactly
/// the least recently inserted entry, the front, and appends the new
/// entry at the back.
pub proof fn lemma_evicts_oldest(c: ReportCacheView, k: ReportKeyView, value: bool, now: u64)
    requires
        c.wf(),
        c.entries.len() == c.capacity,
        spec_first_match(c.entries, k) is None,
    ensures
        spec_complete_state(c, k, value, true, now).entries == c.entries.subrange(
            1,
            c.entries.len() as int,
        ).push(CacheEntryView { key: k, value, inserted_at: now }),
{
    let fresh = CacheEntryView { key: k, value, inserted_at: now };
    let appended = c.entries.push(fresh);
    assert(spec_remove_key(c.entries, k) == c.entries);
    assert(appended.subrange(1, appended.len() as int) =~= c.entries.subrange(
        1,
        c.entries.len() as int,
    ).push(fresh));
}

/// Expiry: when every entry for a key is at least the lifespan old, a
/// lookup misses.
pub proof fn lemma_expired_is_miss(c: ReportCacheView, k: ReportKeyView, now: u64)
    requires
        forall|i: int|
            0 <= i < c.entries.len() && (#[trigger] c.entries[i]).key == k ==> (now as int)
                >= c.entries[i].inserted_at + c.ttl,
    ensures
        spec_lookup(c, k, now) is None,
{
    if exists|i: int| spec_entry_hit(c, k, now, i) {
        let i = choose|i: int| spec_entry_hit(c, k, now, i);
        assert(c.entries[i].key == k);
        assert(false);
    }
}

/// `complete` preserves well-formedness.
pub proof fn lemma_complete_preserves_wf(
    c: ReportCacheView,
    k: ReportKeyView,
    value: bool,
    cache_it: bool,
    now: u64,
)
    requires
        c.wf(),
    ensures
        spec_complete_state(c, k, value, cache_it, now).wf(),
{
    let c1 = spec_complete_state(c, k, value, cache_it, now);
    lemma_first_key_props(c.in_flight, k);
    lemma_remove_keeps_distinct_keys_list(c.in_flight, k);
    if cache_it {
        lemma_first_match_props(c.entries, k);
        lemma_remove_key_no_match(c.entries, k);
        lemma_remove_keeps_distinct_keys(c.entries, k);
        let removed = spec_remove_key(c.entries, k);
        let fresh = CacheEntryView { key: k, value, inserted_at: now };
        let appended = removed.push(fresh);
        let evicted = appended.len() > c.capacity;
        assert forall|i: int, j: int|
            0 <= i < j < c1.entries.len() implies (#[trigger] c1.entries[i]).key != (
        #[trigger] c1.entries[j]).key by {
            let off: int = if evicted {
                1
            } else {
                0
            };
            assert(c1.entries[i] == appended[i + off]);
            assert(c1.entries[j] == appended[j + off]);
            if j + off < appended.len() - 1 {
                assert(appended[i + off] == removed[i + off]);
                assert(appended[j + off] == removed[j + off]);
            } else {
                assert(appended[i + off] == removed[i + off]);
                assert(removed[i + off].key != k);
            }
        }
    }
}

proof fn lemma_remove_key_no_match(es: Seq<CacheEntryView>, k: ReportKeyView)
    requires
        forall|i: int, j: int|
            0 <= i < j < es.len() ==> (#[trigger] es[i]).key != (#[trigger] es[j]).key,
    ensures
        forall|i: int|
            0 <= i < spec_remove_key(es, k).len() ==> (#[trigger] spec_remove_key(es, k)[i]).key
                != k,
{
    lemma_first_match_props(es, k);
    match spec_first_match(es, k) {
        Some(m) => {
            let r = es.remove(m);
            assert forall|i: int| 0 <= i < r.len() implies (#[trigger] r[i]).key != k by {
                let i0: int = if i < m {
                    i
                } else {
                    i + 1
                };
                assert(r[i] == es[i0]);
                if i0 > m && es[i0].key == k {
                    assert(es[m].key != es[i0].key);
                }
            }
        },
        None => {},
    }
}

} // verus!
