//! TTL-expiring cache of negative DNS answers (NXDomain / Refused).
//!
//! Repeated lookups of the same non-existent name are answered from here
//! instead of the API server. Memory stays bounded two ways: a hard cap on
//! the number of entries (once full, a new name is refused, an existing one
//! is still refreshed) and a sweep that drops expired entries.
//!
//! Record types and response codes are carried as their wire numbers.
//! Time is a count of nanoseconds on the monotonic clock, measured from the
//! moment the cache was made.

use std::time::Duration;
use std::time::Instant;

use vstd::prelude::*;

use crate::clock::{clock_now, duration_nanos, nanos_of, nanos_since};
use crate::text::str_eq;

verus! {

/// Identifies a cached negative response: the queried name and record type.
pub struct CacheKey {
    pub qname: String,
    pub qtype: u16,
}

impl View for CacheKey {
    type V = (Seq<char>, u16);

    open spec fn view(&self) -> (Seq<char>, u16) {
        (self.qname@, self.qtype)
    }
}

impl CacheKey {
    /// A copy of the key.
    pub fn duplicate(&self) -> (r: CacheKey)
        ensures
            r@ == self@,
    {
        CacheKey { qname: self.qname.clone(), qtype: self.qtype }
    }

    /// Whether two keys name the same query.
    pub fn same_as(&self, other: &CacheKey) -> (r: bool)
        ensures
            r == (self@ == other@),
    {
        str_eq(self.qname.as_str(), other.qname.as_str()) && self.qtype == other.qtype
    }
}

/// The cached answer for one key: its response code and the instant (in
/// clock nanoseconds) from which it no longer counts.
pub type CachedAnswer = (u16, u64);

/// The abstract contents of a cache: each key with its cached answer.
pub type CacheMap = Map<(Seq<char>, u16), CachedAnswer>;

/// A cached pair as the contracts see it: the key's view and its answer.
pub type PairView = ((Seq<char>, u16), CachedAnswer);

/// The views of a list of cached pairs.
pub open spec fn pair_views(s: Seq<(CacheKey, CachedAnswer)>) -> Seq<PairView> {
    s.map_values(|p: (CacheKey, CachedAnswer)| (p.0@, p.1))
}

/// The map that a list of (key, answer) pairs stands for; a later pair for
/// a key replaces an earlier one.
pub open spec fn entries_map(s: Seq<PairView>) -> CacheMap
    decreases s.len(),
{
    if s.len() == 0 {
        Map::empty()
    } else {
        entries_map(s.drop_last()).insert(s.last().0, s.last().1)
    }
}

/// No key occurs twice in the list.
pub open spec fn unique_keys(s: Seq<PairView>) -> bool {
    forall|i: int, j: int| 0 <= i < j < s.len() ==> s[i].0 != s[j].0
}

/// The pairs of `s` whose answer is still live at `now`, in order.
pub open spec fn live_entries(s: Seq<PairView>, now: u64) -> Seq<PairView>
    decreases s.len(),
{
    if s.len() == 0 {
        s
    } else if s.last().1.1 > now {
        live_entries(s.drop_last(), now).push(s.last())
    } else {
        live_entries(s.drop_last(), now)
    }
}

/// The code served for key `k` at `now`: the cached one while it is live,
/// none once it has expired or when nothing is cached.
pub open spec fn served(m: CacheMap, k: (Seq<char>, u16), now: u64) -> Option<u16> {
    if m.contains_key(k) && m[k].1 > now {
        Some(m[k].0)
    } else {
        None
    }
}

/// The entries of `m` still live at `now`.
pub open spec fn unexpired(m: CacheMap, now: u64) -> CacheMap {
    Map::new(|k: (Seq<char>, u16)| m.contains_key(k) && m[k].1 > now, |k: (Seq<char>, u16)| m[k])
}

/// The instant at which an answer recorded at `now` expires: `now + ttl`,
/// held at the clock's largest value.
pub open spec fn expiry(now: u64, ttl: u64) -> u64 {
    if now + ttl > u64::MAX {
        u64::MAX
    } else {
        (now + ttl) as u64
    }
}

/// Whether a record of key `k` is admitted: there is room, or `k` is
/// already cached.
pub open spec fn admits(m: CacheMap, cap: nat, k: (Seq<char>, u16)) -> bool {
    m.len() < cap || m.contains_key(k)
}

/// A stored answer is served at the time it was recorded, as long as the
/// TTL is positive and the clock has not reached its largest value.
pub proof fn lemma_recorded_answer_is_served(m: CacheMap, k: (Seq<char>, u16), code: u16, now: u64, ttl: u64)
    requires
        ttl > 0,
        now < u64::MAX,
    ensures
        served(m.insert(k, (code, expiry(now, ttl))), k, now) == Some(code),
{
}

/// With a zero TTL, a recorded answer is never served, at the time it was
/// recorded or later.
pub proof fn lemma_zero_ttl_never_served(m: CacheMap, k: (Seq<char>, u16), code: u16, now: u64, later: u64)
    requires
        now <= later,
    ensures
        served(m.insert(k, (code, expiry(now, 0))), k, later) is None,
{
}

/// Recording an answer for one key changes nothing that is served for
/// another key.
pub proof fn lemma_record_leaves_other_keys(m: CacheMap, k: (Seq<char>, u16), other: (Seq<char>, u16), answer: CachedAnswer, now: u64)
    requires
        k != other,
    ensures
        served(m.insert(k, answer), other, now) == served(m, other, now),
{
}

/// Sweeping expired entries at `now` changes nothing that is served at
/// `now` or later.
pub proof fn lemma_sweep_preserves_answers(m: CacheMap, k: (Seq<char>, u16), now: u64, later: u64)
    requires
        now <= later,
    ensures
        served(unexpired(m, now), k, later) == served(m, k, later),
{
}

/// After a sweep at `now`, every remaining entry is live at `now`, and a
/// second sweep at the same time removes nothing.
pub proof fn lemma_sweep_idempotent(m: CacheMap, now: u64)
    ensures
        forall|k: (Seq<char>, u16)| unexpired(m, now).contains_key(k) ==> unexpired(m, now)[k].1 > now,
        unexpired(unexpired(m, now), now) == unexpired(m, now),
{
    assert(unexpired(unexpired(m, now), now) =~= unexpired(m, now));
}

proof fn lemma_entries_dom(s: Seq<PairView>, k: (Seq<char>, u16))
    ensures
        entries_map(s).dom().finite(),
        entries_map(s).contains_key(k) <==> exists|i: int| 0 <= i < s.len() && s[i].0 == k,
    decreases s.len(),
{
    if s.len() > 0 {
        lemma_entries_dom(s.drop_last(), k);
        if entries_map(s).contains_key(k) && s.last().0 != k {
            let i = choose|i: int| 0 <= i < s.drop_last().len() && s.drop_last()[i].0 == k;
            assert(s[i].0 == k);
        }
        if exists|i: int| 0 <= i < s.len() && s[i].0 == k {
            let i = choose|i: int| 0 <= i < s.len() && s[i].0 == k;
            if i < s.len() - 1 {
                assert(s.drop_last()[i].0 == k);
            }
        }
    }
}

proof fn lemma_entries_at(s: Seq<PairView>, i: int)
    requires
        unique_keys(s),
        0 <= i < s.len(),
    ensures
        entries_map(s).contains_key(s[i].0),
        entries_map(s)[s[i].0] == s[i].1,
    decreases s.len(),
{
    if i < s.len() - 1 {
        assert(s.drop_last()[i] == s[i]);
        lemma_entries_at(s.drop_last(), i);
    }
}

proof fn lemma_entries_len(s: Seq<PairView>)
    requires
        unique_keys(s),
    ensures
        entries_map(s).len() == s.len(),
    decreases s.len(),
{
    if s.len() > 0 {
        let d = s.drop_last();
        assert(unique_keys(d));
        lemma_entries_len(d);
        lemma_entries_dom(d, s.last().0);
        if entries_map(d).contains_key(s.last().0) {
            let i = choose|i: int| 0 <= i < d.len() && d[i].0 == s.last().0;
            assert(s[i].0 == s[s.len() - 1].0);
        }
    }
}

proof fn lemma_entries_update(s: Seq<PairView>, i: int, e: PairView)
    requires
        unique_keys(s),
        0 <= i < s.len(),
        e.0 == s[i].0,
    ensures
        entries_map(s.update(i, e)) == entries_map(s).insert(e.0, e.1),
        unique_keys(s.update(i, e)),
    decreases s.len(),
{
    let t = s.update(i, e);
    if i == s.len() - 1 {
        assert(t.drop_last() =~= s.drop_last());
        assert(entries_map(t) =~= entries_map(s).insert(e.0, e.1));
    } else {
        let d = s.drop_last();
        assert(unique_keys(d));
        assert(t.drop_last() =~= d.update(i, e));
        lemma_entries_update(d, i, e);
        assert(s.last().0 != e.0);
        assert(entries_map(t) =~= entries_map(s).insert(e.0, e.1));
    }
}

proof fn lemma_entries_push(s: Seq<PairView>, e: PairView)
    requires
        unique_keys(s),
        !entries_map(s).contains_key(e.0),
    ensures
        unique_keys(s.push(e)),
        entries_map(s.push(e)) == entries_map(s).insert(e.0, e.1),
{
    assert(s.push(e).drop_last() =~= s);
    assert forall|i: int, j: int| 0 <= i < j < s.push(e).len() implies s.push(e)[i].0 != s.push(e)[j].0 by {
        if j == s.len() {
            lemma_entries_dom(s, e.0);
            if s[i].0 == e.0 {
                assert(exists|m: int| 0 <= m < s.len() && s[m].0 == e.0);
            }
        }
    }
}

proof fn lemma_live_entries(s: Seq<PairView>, now: u64)
    requires
        unique_keys(s),
    ensures
        unique_keys(live_entries(s, now)),
        entries_map(live_entries(s, now)) == unexpired(entries_map(s), now),
        live_entries(s, now).len() <= s.len(),
    decreases s.len(),
{
    if s.len() > 0 {
        let d = s.drop_last();
        let e = s.last();
        assert(unique_keys(d));
        lemma_live_entries(d, now);
        lemma_entries_dom(d, e.0);
        if entries_map(d).contains_key(e.0) {
            let i = choose|i: int| 0 <= i < d.len() && d[i].0 == e.0;
            assert(s[i].0 == s[s.len() - 1].0);
        }
        if e.1.1 > now {
            lemma_entries_dom(live_entries(d, now), e.0);
            assert(!entries_map(live_entries(d, now)).contains_key(e.0));
            lemma_entries_push(live_entries(d, now), e);
        }
        assert(entries_map(live_entries(s, now)) =~= unexpired(entries_map(s), now));
    }
}

/// No cached answer of `m` expires later than `bound`.
pub open spec fn expiries_bounded(m: CacheMap, bound: u64) -> bool {
    forall|k: (Seq<char>, u16)| m.contains_key(k) ==> (#[trigger] m[k]).1 <= bound
}

/// No pair of `s` expires later than `bound`.
pub open spec fn pairs_bounded(s: Seq<PairView>, bound: u64) -> bool {
    forall|i: int| 0 <= i < s.len() ==> (#[trigger] s[i]).1.1 <= bound
}

/// Expiry grows with the time of recording.
proof fn lemma_expiry_monotone(t1: u64, t2: u64, ttl: u64)
    requires
        t1 <= t2,
    ensures
        expiry(t1, ttl) <= expiry(t2, ttl),
{
}

proof fn lemma_bounded_map(s: Seq<PairView>, bound: u64)
    requires
        pairs_bounded(s, bound),
    ensures
        expiries_bounded(entries_map(s), bound),
    decreases s.len(),
{
    if s.len() > 0 {
        let d = s.drop_last();
        assert(pairs_bounded(d, bound)) by {
            assert forall|i: int| 0 <= i < d.len() implies (#[trigger] d[i]).1.1 <= bound by {
                assert(d[i] == s[i]);
            }
        }
        lemma_bounded_map(d, bound);
        assert(s[s.len() - 1].1.1 <= bound);
    }
}

proof fn lemma_live_bounded(s: Seq<PairView>, now: u64, bound: u64)
    requires
        pairs_bounded(s, bound),
    ensures
        pairs_bounded(live_entries(s, now), bound),
    decreases s.len(),
{
    if s.len() > 0 {
        let d = s.drop_last();
        assert(pairs_bounded(d, bound)) by {
            assert forall|i: int| 0 <= i < d.len() implies (#[trigger] d[i]).1.1 <= bound by {
                assert(d[i] == s[i]);
            }
        }
        lemma_live_bounded(d, now, bound);
        assert(s[s.len() - 1].1.1 <= bound);
    }
}

/// A cache whose answers live zero nanoseconds serves nothing from the
/// moment its entries were recorded on: every entry has expired by then.
pub proof fn lemma_zero_ttl_serves_nothing(m: CacheMap, floor: u64, now: u64, k: (Seq<char>, u16))
    requires
        expiries_bounded(m, expiry(floor, 0)),
        floor <= now,
    ensures
        served(m, k, now) is None,
{
    if m.contains_key(k) {
        assert(m[k].1 <= floor);
    }
}

/// Every entry of a cache whose answers live zero nanoseconds has expired
/// from the moment its entries were recorded on, so a sweep then removes
/// them all.
pub proof fn lemma_zero_ttl_sweeps_everything(m: CacheMap, floor: u64, now: u64)
    requires
        expiries_bounded(m, expiry(floor, 0)),
        floor <= now,
    ensures
        unexpired(m, now) == CacheMap::empty(),
{
    assert forall|k: (Seq<char>, u16)| !unexpired(m, now).contains_key(k) by {
        if m.contains_key(k) {
            assert(m[k].1 <= floor);
        }
    }
    assert(unexpired(m, now) =~= CacheMap::empty());
}

/// `t`, or `floor` when `t` is below it: a clock reading as the cache acts
/// on it.
pub open spec fn at_least(t: u64, floor: u64) -> u64 {
    if t < floor {
        floor
    } else {
        t
    }
}

/// An answer recorded when the clock read `t1` is served by a lookup whose
/// clock reads `t2` (no earlier) exactly while `t2` is less than `t1` plus
/// the TTL, provided the cache had not acted past `t1` and the TTL does not
/// run past the clock's range.
pub proof fn lemma_record_then_lookup(
    m: CacheMap,
    k: (Seq<char>, u16),
    code: u16,
    floor: u64,
    ttl: u64,
    t1: u64,
    t2: u64,
)
    requires
        floor <= t1 <= t2,
        t1 + ttl <= u64::MAX,
    ensures
        ({
            let f1 = at_least(t1, floor);
            let m1 = m.insert(k, (code, expiry(f1, ttl)));
            &&& f1 == t1
            &&& expiry(f1, ttl) == t1 + ttl
            &&& (served(m1, k, at_least(t2, f1)) == Some(code) <==> t2 < t1 + ttl)
            &&& (served(m1, k, at_least(t2, f1)) is None <==> t2 >= t1 + ttl)
        }),
{
}

/// A TTL-expiring cache of negative answers with a cap on its size.
///
/// Besides its entries it keeps the latest clock time it acted at. A
/// reading of the clock is never taken below that time, so the readings
/// it acts on never go back, and no entry expires later than that time
/// plus the TTL.
pub struct NegativeCache {
    entries: Vec<(CacheKey, CachedAnswer)>,
    ttl: u64,
    max_entries: usize,
    origin: Instant,
    floor: u64,
}

impl View for NegativeCache {
    type V = CacheMap;

    closed spec fn view(&self) -> CacheMap {
        entries_map(pair_views(self.entries@))
    }
}

impl NegativeCache {
    #[verifier::type_invariant]
    spec fn well_formed(self) -> bool {
        &&& unique_keys(pair_views(self.entries@))
        &&& self.entries@.len() <= self.max_entries
        &&& pairs_bounded(pair_views(self.entries@), expiry(self.floor, self.ttl))
    }

    /// The latest clock time the cache has acted at.
    pub closed spec fn clock_floor(&self) -> u64 {
        self.floor
    }

    /// The instant the cache reads its clock from.
    pub closed spec fn clock_origin(&self) -> Instant {
        self.origin
    }

    /// The time, in nanoseconds, that a recorded answer stays live.
    pub closed spec fn ttl_nanos(&self) -> u64 {
        self.ttl
    }

    /// The largest number of entries the cache holds.
    pub closed spec fn capacity(&self) -> nat {
        self.max_entries as nat
    }

    /// An empty cache whose answers live `ttl` and which holds at most
    /// `max_entries` entries.
    pub fn new(ttl: Duration, max_entries: usize) -> (r: Self)
        ensures
            r@ == CacheMap::empty(),
            r.capacity() == max_entries,
            r.ttl_nanos() == nanos_of(ttl),
            r.clock_floor() == 0,
    {
        Self::with_ttl_nanos(duration_nanos(&ttl), max_entries)
    }

    /// An empty cache whose answers live `ttl` nanoseconds.
    pub fn with_ttl_nanos(ttl: u64, max_entries: usize) -> (r: Self)
        ensures
            r@ == CacheMap::empty(),
            r.capacity() == max_entries,
            r.ttl_nanos() == ttl,
            r.clock_floor() == 0,
    {
        let r = NegativeCache { entries: Vec::new(), ttl, max_entries, origin: clock_now(), floor: 0 };
        assert(pair_views(r.entries@) =~= Seq::<PairView>::empty());
        assert(r@ =~= CacheMap::empty());
        r
    }

    /// The configured maximum number of entries.
    pub fn max_entries(&self) -> (r: usize)
        ensures
            r == self.capacity(),
    {
        self.max_entries
    }

    /// The number of entries held, expired or not.
    pub fn len(&self) -> (r: usize)
        ensures
            r == self@.len(),
            r <= self.capacity(),
    {
        proof {
            use_type_invariant(self);
            lemma_entries_len(pair_views(self.entries@));
        }
        self.entries.len()
    }

    /// The clock, read from the cache's origin, and never below the latest
    /// time the cache has acted at.
    fn clock_reading(&self) -> (now: u64)
        ensures
            now >= self.clock_floor(),
            exists|t: u64| call_ensures(nanos_since, (&self.clock_origin(),), t) && now == at_least(t, self.clock_floor()),
    {
        let t = nanos_since(&self.origin);
        let now = if t < self.floor {
            self.floor
        } else {
            t
        };
        assert(now == at_least(t, self.clock_floor()));
        now
    }

    /// No entry expires later than the latest time the cache acted at plus
    /// its TTL.
    fn entries_bounded(&self)
        ensures
            expiries_bounded(self@, expiry(self.clock_floor(), self.ttl_nanos())),
    {
        proof {
            use_type_invariant(self);
            lemma_bounded_map(pair_views(self.entries@), expiry(self.floor, self.ttl));
        }
    }

    fn position(&self, key: &CacheKey) -> (r: Option<usize>)
        ensures
            match r {
                Some(i) => i < self.entries@.len() && self.entries@[i as int].0@ == key@,
                None => !self@.contains_key(key@),
            },
    {
        let mut i: usize = 0;
        while i < self.entries.len()
            invariant
                i <= self.entries@.len(),
                forall|j: int| 0 <= j < i ==> self.entries@[j].0@ != key@,
            decreases self.entries@.len() - i,
        {
            if self.entries[i].0.same_as(key) {
                return Some(i);
            }
            i = i + 1;
        }
        proof {
            let s = pair_views(self.entries@);
            lemma_entries_dom(s, key@);
            if self@.contains_key(key@) {
                let j = choose|j: int| 0 <= j < s.len() && s[j].0 == key@;
                assert(self.entries@[j].0@ == key@);
            }
        }
        None
    }

    /// The cached response code for `key` at clock time `now`, if a live
    /// entry exists. An entry past its expiry counts as absent even before
    /// it is swept.
    pub fn get_at(&self, key: &CacheKey, now: u64) -> (r: Option<u16>)
        ensures
            r == served(self@, key@, now),
    {
        proof {
            use_type_invariant(self);
        }
        match self.position(key) {
            Some(i) => {
                proof {
                    lemma_entries_at(pair_views(self.entries@), i as int);
                }
                let (code, expires_at) = self.entries[i].1;
                if expires_at > now {
                    Some(code)
                } else {
                    None
                }
            },
            None => None,
        }
    }

    /// The cached response code for `key` now, if a live entry exists: what
    /// the cache serves at the clock time it reads.
    pub fn get(&self, key: &CacheKey) -> (r: Option<u16>)
        ensures
            exists|now: u64| now >= self.clock_floor() && r == served(self@, key@, now),
            exists|t: u64|
                call_ensures(nanos_since, (&self.clock_origin(),), t) && r == served(
                    self@,
                    key@,
                    at_least(t, self.clock_floor()),
                ),
            r is Some ==> self@.contains_key(key@) && r == Some(self@[key@].0),
            !self@.contains_key(key@) ==> r is None,
            expiries_bounded(self@, expiry(self.clock_floor(), self.ttl_nanos())),
            self.ttl_nanos() == 0 ==> r is None,
    {
        let now = self.clock_reading();
        let r = self.get_at(key, now);
        self.entries_bounded();
        proof {
            if self.ttl == 0 {
                lemma_zero_ttl_serves_nothing(self@, self.floor, now, key@);
            }
        }
        assert(now >= self.clock_floor() && r == served(self@, key@, now));
        r
    }

    /// Records `code` for `key` at clock time `now`, honouring the cap.
    /// Returns whether the entry was stored: a new key is refused once the
    /// cache is full, a key already present is always refreshed.
    pub fn record_at(&mut self, key: CacheKey, code: u16, now: u64) -> (stored: bool)
        ensures
            stored == admits(old(self)@, old(self).capacity(), key@),
            stored ==> final(self)@ == old(self)@.insert(key@, (code, expiry(now, old(self).ttl_nanos()))),
            !stored ==> final(self)@ == old(self)@,
            final(self)@.len() <= final(self).capacity(),
            final(self).capacity() == old(self).capacity(),
            final(self).ttl_nanos() == old(self).ttl_nanos(),
            final(self).clock_floor() == if now > old(self).clock_floor() { now } else { old(self).clock_floor() },
            final(self).clock_origin() == old(self).clock_origin(),
            expiries_bounded(final(self)@, expiry(final(self).clock_floor(), final(self).ttl_nanos())),
    {
        proof {
            use_type_invariant(&*self);
            lemma_entries_len(pair_views(self.entries@));
        }
        let expires_at: u64 = if self.ttl > u64::MAX - now {
            u64::MAX
        } else {
            now + self.ttl
        };
        let new_floor: u64 = if now > self.floor { now } else { self.floor };
        let ghost old_bound = expiry(self.floor, self.ttl);
        let ghost bound = expiry(new_floor, self.ttl);
        proof {
            lemma_expiry_monotone(self.floor, new_floor, self.ttl);
            lemma_expiry_monotone(now, new_floor, self.ttl);
        }
        let found = self.position(&key);
        let ghost kv = (key@, (code, expires_at));
        let mut entries: Vec<(CacheKey, CachedAnswer)> = Vec::new();
        std::mem::swap(&mut entries, &mut self.entries);
        let ghost before = entries@;
        self.floor = new_floor;
        assert(pairs_bounded(pair_views(before), bound)) by {
            assert forall|j: int| 0 <= j < pair_views(before).len() implies (#[trigger] pair_views(before)[j]).1.1 <= bound by {
                assert(pair_views(before)[j].1.1 <= old_bound);
            }
        }
        match found {
            Some(i) => {
                proof {
                    lemma_entries_at(pair_views(before), i as int);
                    lemma_entries_update(pair_views(before), i as int, kv);
                }
                entries.set(i, (key, (code, expires_at)));
                assert(pair_views(entries@) =~= pair_views(before).update(i as int, kv));
                proof {
                    lemma_entries_len(pair_views(entries@));
                    assert(pairs_bounded(pair_views(entries@), bound));
                    lemma_bounded_map(pair_views(entries@), bound);
                }
                self.entries = entries;
                true
            },
            None => {
                if entries.len() >= self.max_entries {
                    proof {
                        lemma_bounded_map(pair_views(entries@), bound);
                    }
                    self.entries = entries;
                    false
                } else {
                    proof {
                        lemma_entries_push(pair_views(before), kv);
                    }
                    entries.push((key, (code, expires_at)));
                    assert(pair_views(entries@) =~= pair_views(before).push(kv));
                    proof {
                        lemma_entries_len(pair_views(entries@));
                        assert(pairs_bounded(pair_views(entries@), bound));
                        lemma_bounded_map(pair_views(entries@), bound);
                    }
                    self.entries = entries;
                    true
                }
            },
        }
    }

    /// Records `code` for `key` now, honouring the cap. Returns whether the
    /// entry was stored.
    pub fn record(&mut self, key: CacheKey, code: u16) -> (stored: bool)
        ensures
            stored == admits(old(self)@, old(self).capacity(), key@),
            final(self).clock_floor() >= old(self).clock_floor(),
            stored ==> final(self)@ == old(self)@.insert(
                key@,
                (code, expiry(final(self).clock_floor(), old(self).ttl_nanos())),
            ),
            !stored ==> final(self)@ == old(self)@,
            final(self)@.len() <= final(self).capacity(),
            final(self).capacity() == old(self).capacity(),
            final(self).ttl_nanos() == old(self).ttl_nanos(),
            expiries_bounded(final(self)@, expiry(final(self).clock_floor(), final(self).ttl_nanos())),
            final(self).clock_origin() == old(self).clock_origin(),
            exists|t: u64|
                call_ensures(nanos_since, (&old(self).clock_origin(),), t) && final(self).clock_floor() == at_least(
                    t,
                    old(self).clock_floor(),
                ),
    {
        let now = self.clock_reading();
        self.record_at(key, code, now)
    }

    /// Removes the entries expired at clock time `now` and returns how many
    /// were removed.
    pub fn evict_expired_at(&mut self, now: u64) -> (evicted: usize)
        ensures
            final(self)@ == unexpired(old(self)@, now),
            evicted == old(self)@.len() - final(self)@.len(),
            final(self).capacity() == old(self).capacity(),
            final(self).ttl_nanos() == old(self).ttl_nanos(),
            final(self).clock_floor() == if now > old(self).clock_floor() { now } else { old(self).clock_floor() },
            final(self).clock_origin() == old(self).clock_origin(),
            expiries_bounded(final(self)@, expiry(final(self).clock_floor(), final(self).ttl_nanos())),
    {
        proof {
            use_type_invariant(&*self);
        }
        let new_floor: u64 = if now > self.floor { now } else { self.floor };
        let ghost old_bound = expiry(self.floor, self.ttl);
        let ghost bound = expiry(new_floor, self.ttl);
        proof {
            lemma_expiry_monotone(self.floor, new_floor, self.ttl);
        }
        let mut entries: Vec<(CacheKey, CachedAnswer)> = Vec::new();
        std::mem::swap(&mut entries, &mut self.entries);
        self.floor = new_floor;
        let ghost before = pair_views(entries@);
        let mut kept: Vec<(CacheKey, CachedAnswer)> = Vec::new();
        let mut i: usize = 0;
        while i < entries.len()
            invariant
                i <= entries@.len(),
                before == pair_views(entries@),
                pair_views(kept@) == live_entries(before.take(i as int), now),
            decreases entries@.len() - i,
        {
            let e = &entries[i];
            assert(before.take(i + 1).drop_last() =~= before.take(i as int));
            if e.1.1 > now {
                let copy = (e.0.duplicate(), e.1);
                let ghost prev = kept@;
                kept.push(copy);
                assert(pair_views(kept@) =~= pair_views(prev).push(before[i as int]));
            }
            i = i + 1;
        }
        proof {
            assert(before.take(before.len() as int) =~= before);
            lemma_live_entries(before, now);
            lemma_entries_len(before);
            lemma_entries_len(pair_views(kept@));
            assert(pairs_bounded(before, bound)) by {
                assert forall|j: int| 0 <= j < before.len() implies (#[trigger] before[j]).1.1 <= bound by {
                    assert(before[j].1.1 <= old_bound);
                }
            }
            lemma_live_bounded(before, now, bound);
            lemma_bounded_map(pair_views(kept@), bound);
        }
        let evicted = entries.len() - kept.len();
        self.entries = kept;
        evicted
    }

    /// Removes the entries expired now and returns how many were removed.
    pub fn evict_expired(&mut self) -> (evicted: usize)
        ensures
            final(self).clock_floor() >= old(self).clock_floor(),
            final(self)@ == unexpired(old(self)@, final(self).clock_floor()),
            evicted == old(self)@.len() - final(self)@.len(),
            final(self).capacity() == old(self).capacity(),
            final(self).ttl_nanos() == old(self).ttl_nanos(),
            expiries_bounded(final(self)@, expiry(final(self).clock_floor(), final(self).ttl_nanos())),
            old(self).ttl_nanos() == 0 ==> final(self)@.len() == 0 && evicted == old(self)@.len(),
            final(self).clock_origin() == old(self).clock_origin(),
            exists|t: u64|
                call_ensures(nanos_since, (&old(self).clock_origin(),), t) && final(self).clock_floor() == at_least(
                    t,
                    old(self).clock_floor(),
                ),
    {
        self.entries_bounded();
        let now = self.clock_reading();
        let ghost before = self@;
        let ghost floor = self.floor;
        let evicted = self.evict_expired_at(now);
        proof {
            if self.ttl == 0 {
                lemma_zero_ttl_sweeps_everything(before, floor, now);
            }
        }
        evicted
    }
}

} // verus!
