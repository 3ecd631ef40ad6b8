//! The key-value store: a map from key to value and optional expiration
//! instant, with lazy expiration.
use crate::pattern::{pattern_matches, KeyPattern};
use vstd::prelude::*;

verus! {

/// Milliseconds in a second; instants are counted in milliseconds.
pub const MILLIS_PER_SECOND: u64 = 1000;

/// What the store keeps for one key.
#[derive(Debug)]
pub struct StoreEntry {
    pub value: String,
    /// The instant, in milliseconds, from which the entry counts as expired;
    /// `None` when it never expires.
    pub expires_at: Option<u64>,
}

/// The mathematical content of an entry: its value and expiration instant.
pub type EntryModel = (Seq<char>, Option<u64>);

impl View for StoreEntry {
    type V = EntryModel;

    open spec fn view(&self) -> EntryModel {
        (self.value@, self.expires_at)
    }
}

impl StoreEntry {
    /// A copy of the entry.
    pub fn copy(&self) -> (r: StoreEntry)
        ensures
            r@ == self@,
    {
        StoreEntry { value: self.value.clone(), expires_at: self.expires_at }
    }
}

/// Whether an entry is still alive at instant `now`: it has no expiration, or
/// its expiration instant lies after `now`.
pub open spec fn is_live(e: EntryModel, now: u64) -> bool {
    match e.1 {
        None => true,
        Some(t) => now < t,
    }
}

/// The expiration instant of an entry set at `now` with time to live `ttl`
/// seconds. An instant past the largest `u64` can never be reached, so such an
/// entry never expires.
pub open spec fn expiry(now: u64, ttl: Option<u64>) -> Option<u64> {
    match ttl {
        None => None,
        Some(t) => if now + t * MILLIS_PER_SECOND <= u64::MAX {
            Some((now + t * MILLIS_PER_SECOND) as u64)
        } else {
            None
        },
    }
}

/// Computes `expiry(now, ttl)`.
pub fn expiry_after(now: u64, ttl: Option<u64>) -> (r: Option<u64>)
    ensures
        r == expiry(now, ttl),
{
    match ttl {
        None => None,
        Some(t) => match t.checked_mul(MILLIS_PER_SECOND) {
            Some(d) => now.checked_add(d),
            None => {
                assert(now + t * MILLIS_PER_SECOND > u64::MAX) by (nonlinear_arith)
                    requires
                        t * MILLIS_PER_SECOND > u64::MAX,
                ;
                None
            },
        },
    }
}

/// Whether an entry is alive at instant `now`.
pub fn is_alive(entry: &StoreEntry, now: u64) -> (r: bool)
    ensures
        r == is_live(entry@, now),
{
    match entry.expires_at {
        Some(t) => now < t,
        None => true,
    }
}

/// The outcome of checking an entry against the clock.
#[derive(Debug)]
pub enum Freshness {
    Fresh(String),
    Expired,
}

/// Checks an entry at instant `now`: its value while it is alive, `Expired`
/// once its expiration instant has come.
pub fn evaluate(entry: &StoreEntry, now: u64) -> (r: Freshness)
    ensures
        match r {
            Freshness::Fresh(v) => is_live(entry@, now) && v@ == entry@.0,
            Freshness::Expired => !is_live(entry@, now),
        },
{
    if is_alive(entry, now) {
        Freshness::Fresh(entry.value.clone())
    } else {
        Freshness::Expired
    }
}

pub open spec fn key_at(s: Seq<(String, StoreEntry)>, i: int, k: Seq<char>) -> bool {
    0 <= i < s.len() && s[i].0@ == k
}

pub open spec fn unique_keys(s: Seq<(String, StoreEntry)>) -> bool {
    forall|i: int, j: int|
        0 <= i < s.len() && 0 <= j < s.len() && i != j ==> s[i].0@ != s[j].0@
}

/// The map that a sequence of entries with unique keys stands for.
pub open spec fn map_of(s: Seq<(String, StoreEntry)>) -> Map<Seq<char>, EntryModel> {
    Map::new(
        |k: Seq<char>| exists|i: int| key_at(s, i, k),
        |k: Seq<char>| s[choose|i: int| key_at(s, i, k)].1@,
    )
}

/// The keys of the entries, in order, that are alive at `now` and match the
/// regular expression `p`.
pub open spec fn listed(s: Seq<(String, StoreEntry)>, p: Seq<char>, now: u64) -> Seq<Seq<char>>
    decreases s.len(),
{
    if s.len() == 0 {
        seq![]
    } else {
        let rest = listed(s.drop_last(), p, now);
        if is_live(s.last().1@, now) && pattern_matches(p, s.last().0@) {
            rest.push(s.last().0@)
        } else {
            rest
        }
    }
}

proof fn lemma_map_at(s: Seq<(String, StoreEntry)>, i: int)
    requires
        unique_keys(s),
        0 <= i < s.len(),
    ensures
        map_of(s).contains_key(s[i].0@),
        map_of(s)[s[i].0@] == s[i].1@,
{
    assert(key_at(s, i, s[i].0@));
}

proof fn lemma_update(s: Seq<(String, StoreEntry)>, i: int, e: (String, StoreEntry))
    requires
        unique_keys(s),
        0 <= i < s.len(),
        e.0@ == s[i].0@,
    ensures
        unique_keys(s.update(i, e)),
        map_of(s.update(i, e)) == map_of(s).insert(e.0@, e.1@),
{
    let s2 = s.update(i, e);
    assert forall|k: Seq<char>| #[trigger]
        map_of(s2).contains_key(k) == map_of(s).insert(e.0@, e.1@).contains_key(k) by {
        if map_of(s).contains_key(k) {
            let j = choose|j: int| key_at(s, j, k);
            assert(key_at(s2, j, k));
        }
        if map_of(s2).contains_key(k) {
            let j = choose|j: int| key_at(s2, j, k);
            assert(key_at(s, j, k));
        }
        if k == e.0@ {
            assert(key_at(s2, i, k));
        }
    }
    assert forall|k: Seq<char>| #[trigger] map_of(s2).contains_key(k) implies map_of(s2)[k]
        == map_of(s).insert(e.0@, e.1@)[k] by {
        let j = choose|j: int| key_at(s2, j, k);
        lemma_map_at(s2, j);
        if k != e.0@ {
            lemma_map_at(s, j);
        }
    }
    assert(map_of(s2) =~= map_of(s).insert(e.0@, e.1@));
}

proof fn lemma_push(s: Seq<(String, StoreEntry)>, e: (String, StoreEntry))
    requires
        unique_keys(s),
        forall|j: int| 0 <= j < s.len() ==> s[j].0@ != e.0@,
    ensures
        unique_keys(s.push(e)),
        map_of(s.push(e)) == map_of(s).insert(e.0@, e.1@),
{
    let s2 = s.push(e);
    assert forall|k: Seq<char>| #[trigger]
        map_of(s2).contains_key(k) == map_of(s).insert(e.0@, e.1@).contains_key(k) by {
        if map_of(s).contains_key(k) {
            let j = choose|j: int| key_at(s, j, k);
            assert(key_at(s2, j, k));
        }
        if map_of(s2).contains_key(k) && k != e.0@ {
            let j = choose|j: int| key_at(s2, j, k);
            assert(key_at(s, j, k));
        }
        if k == e.0@ {
            assert(key_at(s2, s.len() as int, k));
        }
    }
    assert forall|k: Seq<char>| #[trigger] map_of(s2).contains_key(k) implies map_of(s2)[k]
        == map_of(s).insert(e.0@, e.1@)[k] by {
        let j = choose|j: int| key_at(s2, j, k);
        lemma_map_at(s2, j);
        if k != e.0@ {
            lemma_map_at(s, j);
        }
    }
    assert(map_of(s2) =~= map_of(s).insert(e.0@, e.1@));
}

proof fn lemma_remove(s: Seq<(String, StoreEntry)>, i: int)
    requires
        unique_keys(s),
        0 <= i < s.len(),
    ensures
        unique_keys(s.remove(i)),
        map_of(s.remove(i)) == map_of(s).remove(s[i].0@),
{
    let s2 = s.remove(i);
    let k0 = s[i].0@;
    assert forall|a: int, b: int|
        0 <= a < s2.len() && 0 <= b < s2.len() && a != b implies s2[a].0@ != s2[b].0@ by {
        let a1 = if a < i { a } else { a + 1 };
        let b1 = if b < i { b } else { b + 1 };
        assert(s2[a] == s[a1] && s2[b] == s[b1]);
    }
    assert forall|k: Seq<char>| #[trigger]
        map_of(s2).contains_key(k) == map_of(s).remove(k0).contains_key(k) by {
        if map_of(s).contains_key(k) && k != k0 {
            let j = choose|j: int| key_at(s, j, k);
            let j2 = if j < i { j } else { j - 1 };
            assert(key_at(s2, j2, k));
        }
        if map_of(s2).contains_key(k) {
            let j = choose|j: int| key_at(s2, j, k);
            let j1 = if j < i { j } else { j + 1 };
            assert(key_at(s, j1, k));
        }
    }
    assert forall|k: Seq<char>| #[trigger] map_of(s2).contains_key(k) implies map_of(s2)[k]
        == map_of(s).remove(k0)[k] by {
        let j = choose|j: int| key_at(s2, j, k);
        let j1 = if j < i { j } else { j + 1 };
        assert(s2[j] == s[j1]);
        lemma_map_at(s2, j);
        lemma_map_at(s, j1);
    }
    assert(map_of(s2) =~= map_of(s).remove(k0));
}

proof fn lemma_listed(s: Seq<(String, StoreEntry)>, p: Seq<char>, now: u64)
    requires
        unique_keys(s),
    ensures
        listed(s, p, now).no_duplicates(),
        forall|k: Seq<char>| #[trigger]
            listed(s, p, now).contains(k) <==> (map_of(s).contains_key(k) && is_live(map_of(s)[k], now)
                && pattern_matches(p, k)),
    decreases s.len(),
{
    if s.len() == 0 {
        assert forall|k: Seq<char>| !#[trigger] map_of(s).contains_key(k) by {}
    } else {
        let s0 = s.drop_last();
        let e = s.last();
        assert(unique_keys(s0));
        lemma_listed(s0, p, now);
        assert forall|j: int| 0 <= j < s0.len() implies s0[j].0@ != e.0@ by {
            assert(s0[j] == s[j]);
        }
        lemma_push(s0, e);
        assert(s0.push(e) =~= s);
        assert(!map_of(s0).contains_key(e.0@));
        let rest = listed(s0, p, now);
        if is_live(e.1@, now) && pattern_matches(p, e.0@) {
            assert(!rest.contains(e.0@));
            let r2 = rest.push(e.0@);
            assert forall|a: int, b: int| 0 <= a < r2.len() && 0 <= b < r2.len() && a != b implies r2[a]
                != r2[b] by {
                if a < rest.len() && b < rest.len() {
                } else if a < rest.len() {
                    assert(rest.contains(r2[a]));
                } else {
                    assert(rest.contains(r2[b]));
                }
            }
            assert forall|k: Seq<char>| #[trigger]
                listed(s, p, now).contains(k) <==> (map_of(s).contains_key(k) && is_live(
                    map_of(s)[k],
                    now,
                ) && pattern_matches(p, k)) by {
                if k != e.0@ {
                    assert(rest.push(e.0@).contains(k) ==> rest.contains(k)) by {
                        if rest.push(e.0@).contains(k) {
                            let j = choose|j: int| 0 <= j < rest.len() + 1 && rest.push(e.0@)[j] == k;
                            assert(rest[j] == k);
                        }
                    }
                    assert(rest.contains(k) ==> rest.push(e.0@).contains(k)) by {
                        if rest.contains(k) {
                            let j = choose|j: int| 0 <= j < rest.len() && rest[j] == k;
                            assert(rest.push(e.0@)[j] == k);
                        }
                    }
                } else {
                    assert(rest.push(e.0@)[rest.len() as int] == k);
                }
            }
        } else {
            assert forall|k: Seq<char>| #[trigger]
                listed(s, p, now).contains(k) <==> (map_of(s).contains_key(k) && is_live(
                    map_of(s)[k],
                    now,
                ) && pattern_matches(p, k)) by {}
        }
    }
}

/// The store: each key at most once, in the order keys were first set.
pub struct Store {
    entries: Vec<(String, StoreEntry)>,
}

impl View for Store {
    type V = Map<Seq<char>, EntryModel>;

    closed spec fn view(&self) -> Map<Seq<char>, EntryModel> {
        map_of(self.entries@)
    }
}

impl Store {
    /// The store's invariant: no key is held twice.
    pub closed spec fn wf(&self) -> bool {
        unique_keys(self.entries@)
    }

    /// The present keys, alive at `now`, that the regular expression `p`
    /// matches, in the store's order.
    pub closed spec fn listing(&self, p: Seq<char>, now: u64) -> Seq<Seq<char>> {
        listed(self.entries@, p, now)
    }

    /// What the store lists for a pattern at `now` is exactly the set of
    /// present keys, alive at `now`, whose name the pattern matches, each
    /// once.
    pub proof fn lemma_listing_exact(&self, p: Seq<char>, now: u64)
        requires
            self.wf(),
        ensures
            self.listing(p, now).no_duplicates(),
            forall|k: Seq<char>| #[trigger]
                self.listing(p, now).contains(k) <==> (self@.contains_key(k) && is_live(self@[k], now)
                    && pattern_matches(p, k)),
    {
        lemma_listed(self.entries@, p, now);
    }

    /// An empty store.
    pub fn new() -> (r: Store)
        ensures
            r.wf(),
            r@ == Map::<Seq<char>, EntryModel>::empty(),
    {
        let r = Store { entries: Vec::new() };
        assert(r@ =~= Map::<Seq<char>, EntryModel>::empty());
        r
    }

    fn position(&self, key: &String) -> (r: Option<usize>)
        requires
            self.wf(),
        ensures
            match r {
                Some(i) => key_at(self.entries@, i as int, key@),
                None => forall|j: int| 0 <= j < self.entries@.len() ==> self.entries@[j].0@ != key@,
            },
            r is Some <==> self@.contains_key(key@),
    {
        let n = self.entries.len();
        let mut i: usize = 0;
        while i < n
            invariant
                self.wf(),
                n == self.entries@.len(),
                i <= n,
                forall|j: int| 0 <= j < i ==> self.entries@[j].0@ != key@,
            decreases n - i,
        {
            if self.entries[i].0.eq(key) {
                proof {
                    lemma_map_at(self.entries@, i as int);
                }
                return Some(i);
            }
            i = i + 1;
        }
        None
    }

    /// A copy of the entry held for `key`, whether or not it has expired.
    pub fn get(&self, key: &String) -> (r: Option<StoreEntry>)
        requires
            self.wf(),
        ensures
            match r {
                Some(e) => self@.contains_key(key@) && self@[key@] == e@,
                None => !self@.contains_key(key@),
            },
    {
        match self.position(key) {
            Some(i) => {
                proof {
                    lemma_map_at(self.entries@, i as int);
                }
                Some(self.entries[i].1.copy())
            },
            None => None,
        }
    }

    /// Sets `key` to `value`, expiring `ttl` seconds after `now` when a time
    /// to live is given and never otherwise; any earlier entry is replaced,
    /// expiration included.
    pub fn set(&mut self, key: String, value: String, ttl: Option<u64>, now: u64)
        requires
            old(self).wf(),
        ensures
            final(self).wf(),
            final(self)@ == old(self)@.insert(key@, (value@, expiry(now, ttl))),
    {
        let expires_at = expiry_after(now, ttl);
        let ghost k = key@;
        match self.position(&key) {
            Some(i) => {
                let ghost s = self.entries@;
                let e = (key, StoreEntry { value, expires_at });
                proof {
                    lemma_update(s, i as int, e);
                }
                self.entries.set(i, e);
                assert(self.entries@ == s.update(i as int, e));
            },
            None => {
                let ghost s = self.entries@;
                let e = (key, StoreEntry { value, expires_at });
                proof {
                    lemma_push(s, e);
                }
                self.entries.push(e);
            },
        }
    }

    /// Removes the entry for `key`; whether there was one.
    pub fn delete(&mut self, key: &String) -> (r: bool)
        requires
            old(self).wf(),
        ensures
            final(self).wf(),
            r == old(self)@.contains_key(key@),
            final(self)@ == old(self)@.remove(key@),
    {
        match self.position(key) {
            Some(i) => {
                let ghost s = self.entries@;
                proof {
                    lemma_remove(s, i as int);
                }
                self.entries.remove(i);
                true
            },
            None => {
                assert(self@ =~= self@.remove(key@));
                false
            },
        }
    }

    /// The present keys, alive at `now`, that `pattern` matches, in the
    /// store's order; each such key exactly once.
    pub fn keys_matching(&self, pattern: &KeyPattern, now: u64) -> (r: Vec<String>)
        requires
            self.wf(),
        ensures
            r@.map_values(|k: String| k@) == self.listing(pattern.source_text(), now),
            self.listing(pattern.source_text(), now).no_duplicates(),
            forall|k: Seq<char>| #[trigger]
                self.listing(pattern.source_text(), now).contains(k) <==> (self@.contains_key(k)
                    && is_live(self@[k], now) && pattern_matches(pattern.source_text(), k)),
    {
        let ghost p = pattern.source_text();
        let mut r: Vec<String> = Vec::new();
        let n = self.entries.len();
        let mut i: usize = 0;
        assert(r@.map_values(|k: String| k@) =~= listed(self.entries@.subrange(0, 0), p, now));
        while i < n
            invariant
                n == self.entries@.len(),
                i <= n,
                p == pattern.source_text(),
                r@.map_values(|k: String| k@) == listed(self.entries@.subrange(0, i as int), p, now),
            decreases n - i,
        {
            let ghost before = r@;
            assert(self.entries@.subrange(0, i + 1).drop_last() =~= self.entries@.subrange(0, i as int));
            let entry = &self.entries[i];
            if is_alive(&entry.1, now) && pattern.is_match(entry.0.as_str()) {
                r.push(entry.0.clone());
                assert(r@.map_values(|k: String| k@) =~= before.map_values(|k: String| k@).push(entry.0@));
            }
            i = i + 1;
        }
        assert(self.entries@.subrange(0, n as int) =~= self.entries@);
        proof {
            lemma_listed(self.entries@, p, now);
        }
        r
    }

    /// Whether an entry is held for `key`, whether or not it has expired.
    pub fn contains(&self, key: &String) -> (r: bool)
        requires
            self.wf(),
        ensures
            r == self@.contains_key(key@),
    {
        self.position(key).is_some()
    }
}

} // verus!
