//! A bounded cache of rendered glyphs, keyed by glyph index.
//!
//! Entries are kept in insertion order as `(glyph index, glyph, stamp)`.
//! Every lookup through [`GlyphCache::try_mut`] advances a clock and stamps
//! the entry it finds; when the cache is full, an insertion replaces the
//! entry with the smallest stamp (the first such entry on a tie).
use vstd::prelude::*;

verus! {

/// One cached entry: the glyph index, the glyph, and the clock value at its
/// last use.
pub type CacheEntry<G> = (u16, G, usize);

/// `key` occurs among the entries.
pub open spec fn holds_key<G>(s: Seq<CacheEntry<G>>, key: u16) -> bool {
    exists|i: int| 0 <= i < s.len() && #[trigger] s[i].0 == key
}

/// `i` is the first position whose entry carries `key`.
pub open spec fn first_slot<G>(s: Seq<CacheEntry<G>>, key: u16, i: int) -> bool {
    &&& 0 <= i < s.len()
    &&& s[i].0 == key
    &&& forall|j: int| 0 <= j < i ==> #[trigger] s[j].0 != key
}

/// `i` is the first position whose stamp is the smallest of all entries.
pub open spec fn oldest_slot<G>(s: Seq<CacheEntry<G>>, i: int) -> bool {
    &&& 0 <= i < s.len()
    &&& forall|j: int| 0 <= j < s.len() ==> s[i].2 <= #[trigger] s[j].2
    &&& forall|j: int| 0 <= j < i ==> s[i].2 < #[trigger] s[j].2
}

/// No glyph index occurs twice among the entries.
pub open spec fn keys_distinct<G>(s: Seq<CacheEntry<G>>) -> bool {
    forall|i: int, j: int|
        0 <= i < s.len() && 0 <= j < s.len() && i != j ==> #[trigger] s[i].0 != #[trigger] s[j].0
}

/// The position of the first entry carrying `key` (meaningful when `key`
/// occurs).
pub open spec fn lookup_slot<G>(s: Seq<CacheEntry<G>>, key: u16) -> int {
    choose|i: int| first_slot(s, key, i)
}

/// The glyph a lookup of `key` finds: that of the first entry carrying it.
pub open spec fn lookup<G>(s: Seq<CacheEntry<G>>, key: u16) -> Option<G> {
    if holds_key(s, key) {
        Some(s[lookup_slot(s, key)].1)
    } else {
        None
    }
}

/// The position an insertion into a full cache overwrites (meaningful when
/// the cache is not empty).
pub open spec fn eviction_slot<G>(s: Seq<CacheEntry<G>>) -> int {
    choose|i: int| oldest_slot(s, i)
}

/// The entries after a recorded lookup of `key` at clock value `stamp`.
pub open spec fn touched<G>(s: Seq<CacheEntry<G>>, key: u16, stamp: usize) -> Seq<CacheEntry<G>> {
    if holds_key(s, key) {
        let i = lookup_slot(s, key);
        s.update(i, (key, s[i].1, stamp))
    } else {
        s
    }
}

/// The entries after inserting `g` under `key` at clock value `stamp` into a
/// cache with `cap` slots.
pub open spec fn inserted<G>(s: Seq<CacheEntry<G>>, cap: usize, key: u16, g: G, stamp: usize) -> Seq<
    CacheEntry<G>,
> {
    if s.len() < cap {
        s.push((key, g, stamp))
    } else {
        s.update(eviction_slot(s), (key, g, stamp))
    }
}

/// Some entry carries `key` exactly when a first one does, and the first one
/// is unique.
pub proof fn lemma_first_slot<G>(s: Seq<CacheEntry<G>>, key: u16)
    ensures
        holds_key(s, key) <==> first_slot(s, key, lookup_slot(s, key)),
        forall|i: int| #[trigger] first_slot(s, key, i) ==> i == lookup_slot(s, key),
    decreases s.len(),
{
    if holds_key(s, key) {
        let p = s.drop_last();
        if holds_key(p, key) {
            lemma_first_slot(p, key);
            let i = lookup_slot(p, key);
            assert(s[i] == p[i]);
            assert forall|j: int| 0 <= j < i implies #[trigger] s[j].0 != key by {
                assert(p[j] == s[j]);
            }
            assert(first_slot(s, key, i));
        } else {
            let i = s.len() - 1;
            assert forall|j: int| 0 <= j < i implies #[trigger] s[j].0 != key by {
                assert(p[j].0 == s[j].0);
            }
            assert(first_slot(s, key, i));
        }
    }
}

/// A non-empty sequence of entries has a unique first entry of smallest stamp.
pub proof fn lemma_eviction_slot<G>(s: Seq<CacheEntry<G>>)
    requires
        s.len() > 0,
    ensures
        oldest_slot(s, eviction_slot(s)),
        forall|i: int| #[trigger] oldest_slot(s, i) ==> i == eviction_slot(s),
    decreases s.len(),
{
    if s.len() == 1 {
        assert(oldest_slot(s, 0));
    } else {
        let p = s.drop_last();
        lemma_eviction_slot(p);
        let i = eviction_slot(p);
        let last = s.len() - 1;
        if s[last].2 < s[i].2 {
            assert forall|j: int| 0 <= j < s.len() implies s[last].2 <= #[trigger] s[j].2 by {
                if j < last {
                    assert(p[j] == s[j]);
                }
            }
            assert forall|j: int| 0 <= j < last implies s[last].2 < #[trigger] s[j].2 by {
                assert(p[j] == s[j]);
            }
            assert(oldest_slot(s, last));
        } else {
            assert forall|j: int| 0 <= j < s.len() implies s[i].2 <= #[trigger] s[j].2 by {
                if j < last {
                    assert(p[j] == s[j]);
                }
            }
            assert forall|j: int| 0 <= j < i implies s[i].2 < #[trigger] s[j].2 by {
                assert(p[j] == s[j]);
            }
            assert(oldest_slot(s, i));
        }
    }
}

/// A cache of glyphs with a fixed number of slots.
#[derive(Clone)]
pub struct GlyphCache<G> {
    /// Number of times the cache has been looked up through `try_mut`.
    age: usize,
    /// Glyph index, glyph, stamp of last use.
    cache: Vec<CacheEntry<G>>,
    cap: usize,
}

impl<G> GlyphCache<G> {
    /// The entries, in the order in which their slots were filled.
    pub closed spec fn entries(&self) -> Seq<CacheEntry<G>> {
        self.cache@
    }

    /// The clock: how many lookups have been made through `try_mut`.
    pub closed spec fn age(&self) -> usize {
        self.age
    }

    /// The number of slots.
    pub closed spec fn cap(&self) -> usize {
        self.cap
    }

    /// Never more entries than slots, and no stamp ahead of the clock.
    pub open spec fn wf(&self) -> bool {
        &&& self.entries().len() <= self.cap()
        &&& forall|i: int| 0 <= i < self.entries().len() ==> #[trigger] self.entries()[i].2 <= self.age()
    }

    /// An empty cache with `cap` slots and its clock at zero.
    pub fn new(cap: usize) -> (r: Self)
        ensures
            r.wf(),
            r.entries() == Seq::<CacheEntry<G>>::empty(),
            r.age() == 0,
            r.cap() == cap,
    {
        GlyphCache { age: 0, cache: Vec::new(), cap }
    }

    /// Number of entries held.
    pub fn len(&self) -> (r: usize)
        ensures
            r == self.entries().len(),
    {
        self.cache.len()
    }

    /// Looks `idx` up without touching the clock or any stamp.
    ///
    /// Returns a clone of the glyph of the first entry carrying `idx`, or
    /// `None` when no entry carries it.
    pub fn try_no_mut(&self, idx: u16) -> (r: Option<G>)
        where G: Clone,
        ensures
            r is None <==> lookup(self.entries(), idx) is None,
            r matches Some(g) ==> cloned(lookup(self.entries(), idx).unwrap(), g),
    {
        let n = self.cache.len();
        for i in 0..n
            invariant
                n == self.entries().len(),
                forall|j: int| 0 <= j < i ==> #[trigger] self.entries()[j].0 != idx,
        {
            if self.cache[i].0 == idx {
                let g = self.cache[i].1.clone();
                proof {
                    lemma_first_slot(self.entries(), idx);
                    assert(first_slot(self.entries(), idx, i as int));
                }
                return Some(g);
            }
        }
        None
    }

    /// Looks `idx` up and records the use.
    ///
    /// The clock advances by one whether or not `idx` is found. When an entry
    /// carries `idx`, the first such entry is stamped with the new clock value
    /// and a clone of its glyph is returned; nothing else changes.
    pub fn try_mut(&mut self, idx: u16) -> (r: Option<G>)
        where G: Clone,
        requires
            old(self).wf(),
            old(self).age() < usize::MAX,
        ensures
            final(self).wf(),
            final(self).age() == old(self).age() + 1,
            final(self).cap() == old(self).cap(),
            final(self).entries() == touched(old(self).entries(), idx, final(self).age()),
            r is None <==> lookup(old(self).entries(), idx) is None,
            r matches Some(g) ==> cloned(lookup(old(self).entries(), idx).unwrap(), g),
    {
        self.age = self.age + 1;
        let n = self.cache.len();
        for i in 0..n
            invariant
                n == self.entries().len(),
                self.entries() == old(self).entries(),
                self.age() == old(self).age() + 1,
                self.cap() == old(self).cap(),
                old(self).wf(),
                forall|j: int| 0 <= j < i ==> #[trigger] self.entries()[j].0 != idx,
        {
            if self.cache[i].0 == idx {
                let stamp = self.age;
                self.cache[i].2 = stamp;
                let g = self.cache[i].1.clone();
                proof {
                    lemma_first_slot(old(self).entries(), idx);
                    assert(first_slot(old(self).entries(), idx, i as int));
                }
                assert(self.entries() =~= old(self).entries().update(
                    i as int,
                    (idx, old(self).entries()[i as int].1, self.age()),
                ));
                return Some(g);
            }
        }
        None
    }

    /// Adds `g` under `idx`, stamped with the current clock.
    ///
    /// While a slot is free the entry is appended. When the cache is full,
    /// the entry with the smallest stamp (the first one on a tie) is replaced
    /// in place. The key is not checked: callers insert after a miss.
    pub fn insert(&mut self, idx: u16, g: G)
        requires
            old(self).wf(),
            old(self).entries().len() < old(self).cap() || old(self).entries().len() > 0,
        ensures
            final(self).wf(),
            final(self).age() == old(self).age(),
            final(self).cap() == old(self).cap(),
            final(self).entries() == inserted(old(self).entries(), old(self).cap(), idx, g, old(self).age()),
            final(self).entries().contains((idx, g, old(self).age())),
    {
        proof {
            law_insert_stamps_with_clock(old(self).entries(), old(self).cap(), idx, g, old(self).age());
        }
        if self.cache.len() < self.cap {
            self.cache.push((idx, g, self.age));
        } else {
            let mut oldest_idx: usize = 0;
            let mut oldest_age: usize = usize::MAX;
            let n = self.cache.len();
            for i in 0..n
                invariant
                    n == self.entries().len(),
                    n > 0,
                    self.entries() == old(self).entries(),
                    i == 0 ==> oldest_idx == 0 && oldest_age == usize::MAX,
                    i > 0 ==> {
                        &&& oldest_idx < i
                        &&& self.entries()[oldest_idx as int].2 == oldest_age
                        &&& forall|j: int| 0 <= j < i ==> oldest_age <= #[trigger] self.entries()[j].2
                        &&& forall|j: int| 0 <= j < oldest_idx ==> oldest_age < #[trigger] self.entries()[j].2
                    },
            {
                if self.cache[i].2 < oldest_age {
                    oldest_age = self.cache[i].2;
                    oldest_idx = i;
                }
            }
            proof {
                assert(oldest_slot(old(self).entries(), oldest_idx as int));
                lemma_eviction_slot(old(self).entries());
            }
            let stamp = self.age;
            self.cache.set(oldest_idx, (idx, g, stamp));
        }
    }
}

} // verus!

verus! {

/// A read gives back what a write wrote: after `g` is inserted under a glyph
/// index the cache did not hold, looking that index up finds `g`.
pub proof fn law_lookup_after_insert<G>(s: Seq<CacheEntry<G>>, cap: usize, key: u16, g: G, stamp: usize)
    requires
        !holds_key(s, key),
        s.len() < cap || s.len() > 0,
    ensures
        lookup(inserted(s, cap, key, g, stamp), key) == Some(g),
{
    let t = inserted(s, cap, key, g, stamp);
    let i = if s.len() < cap {
        s.len() as int
    } else {
        lemma_eviction_slot(s);
        eviction_slot(s)
    };
    assert forall|j: int| 0 <= j < i implies #[trigger] t[j].0 != key by {
        assert(t[j] == s[j]);
    }
    assert(first_slot(t, key, i));
    lemma_first_slot(t, key);
}

/// Inserting a glyph index the cache does not hold keeps glyph indices
/// unique.
pub proof fn law_insert_keeps_keys_distinct<G>(s: Seq<CacheEntry<G>>, cap: usize, key: u16, g: G, stamp: usize)
    requires
        keys_distinct(s),
        !holds_key(s, key),
        s.len() < cap || s.len() > 0,
    ensures
        keys_distinct(inserted(s, cap, key, g, stamp)),
{
    let t = inserted(s, cap, key, g, stamp);
    if s.len() >= cap {
        lemma_eviction_slot(s);
    }
    assert forall|i: int, j: int|
        0 <= i < t.len() && 0 <= j < t.len() && i != j implies #[trigger] t[i].0 != #[trigger] t[j].0 by {
        if t[i].0 == key {
            if t[j].0 == key {
                if s.len() < cap {
                    if i < s.len() {
                        assert(s[i].0 == key);
                    } else {
                        assert(s[j].0 == key);
                    }
                } else {
                    if i != eviction_slot(s) {
                        assert(s[i].0 == key);
                    } else {
                        assert(s[j].0 == key);
                    }
                }
            }
        }
    }
}

/// An insertion loses no entry but the one it overwrites: with unique glyph
/// indices, every other glyph index that was not in the evicted slot is
/// looked up as before.
pub proof fn law_insert_keeps_others<G>(
    s: Seq<CacheEntry<G>>,
    cap: usize,
    key: u16,
    g: G,
    stamp: usize,
    other: u16,
)
    requires
        keys_distinct(s),
        other != key,
        s.len() < cap || s.len() > 0,
        s.len() >= cap ==> s[eviction_slot(s)].0 != other,
    ensures
        lookup(inserted(s, cap, key, g, stamp), other) == lookup(s, other),
{
    let t = inserted(s, cap, key, g, stamp);
    if s.len() >= cap {
        lemma_eviction_slot(s);
    }
    lemma_first_slot(s, other);
    lemma_first_slot(t, other);
    if holds_key(s, other) {
        let i = lookup_slot(s, other);
        assert forall|j: int| 0 <= j < i implies #[trigger] t[j].0 != other by {
            if s.len() >= cap && j == eviction_slot(s) {
            } else {
                assert(t[j] == s[j]);
            }
        }
        assert(t[i] == s[i]);
        assert(first_slot(t, other, i));
    } else {
        assert forall|j: int| 0 <= j < t.len() implies #[trigger] t[j].0 != other by {
            if s.len() >= cap && j == eviction_slot(s) {
            } else if j < s.len() {
                assert(t[j] == s[j]);
                if s[j].0 == other {
                    assert(holds_key(s, other));
                }
            }
        }
    }
}

/// Recording a use changes no lookup: every glyph index finds the same glyph
/// before and after.
pub proof fn law_touch_keeps_lookups<G>(s: Seq<CacheEntry<G>>, key: u16, stamp: usize, other: u16)
    ensures
        lookup(touched(s, key, stamp), other) == lookup(s, other),
{
    let t = touched(s, key, stamp);
    lemma_first_slot(s, key);
    lemma_first_slot(s, other);
    lemma_first_slot(t, other);
    if holds_key(s, key) {
        let k = lookup_slot(s, key);
        assert forall|j: int| 0 <= j < s.len() implies #[trigger] t[j].0 == s[j].0 && t[j].1 == s[j].1 by {
            if j == k {
            } else {
                assert(t[j] == s[j]);
            }
        }
        if holds_key(s, other) {
            let i = lookup_slot(s, other);
            assert forall|j: int| 0 <= j < i implies #[trigger] t[j].0 != other by {
                assert(t[j].0 == s[j].0);
            }
            assert(t[i].0 == s[i].0);
            assert(first_slot(t, other, i));
        } else {
            assert forall|j: int| 0 <= j < t.len() implies #[trigger] t[j].0 != other by {
                assert(t[j].0 == s[j].0);
                if s[j].0 == other {
                    assert(holds_key(s, other));
                }
            }
        }
    }
}

/// The most recently used glyph survives the next eviction: in a full cache
/// of at least two entries whose stamps are all behind the clock, after a
/// recorded lookup finds `key`, inserting another glyph index keeps `key`.
pub proof fn law_recent_survives_eviction<G>(
    s: Seq<CacheEntry<G>>,
    cap: usize,
    age: usize,
    key: u16,
    other: u16,
    g: G,
)
    requires
        forall|i: int| 0 <= i < s.len() ==> #[trigger] s[i].2 <= age,
        age < usize::MAX,
        s.len() >= cap,
        s.len() >= 2,
        holds_key(s, key),
        other != key,
    ensures
        holds_key(inserted(touched(s, key, (age + 1) as usize), cap, other, g, (age + 1) as usize), key),
{
    let stamp = (age + 1) as usize;
    let t = touched(s, key, stamp);
    lemma_first_slot(s, key);
    let k = lookup_slot(s, key);
    assert(t[k].2 == stamp);
    assert(t.len() == s.len());
    lemma_eviction_slot(t);
    let e = eviction_slot(t);
    let other_slot = if k == 0 { 1int } else { 0int };
    assert(t[other_slot] == s[other_slot]);
    assert(t[e].2 <= t[other_slot].2);
    assert(e != k);
    let u = inserted(t, cap, other, g, stamp);
    assert(u[k] == t[k]);
    assert(u[k].0 == key);
}

} // verus!

verus! {

/// Recording a use keeps every glyph index in its slot, and so keeps glyph
/// indices unique and the number of entries.
pub proof fn lemma_touch_keeps_keys<G>(s: Seq<CacheEntry<G>>, key: u16, stamp: usize)
    ensures
        touched(s, key, stamp).len() == s.len(),
        forall|i: int| 0 <= i < s.len() ==> #[trigger] touched(s, key, stamp)[i].0 == s[i].0,
        forall|i: int| 0 <= i < s.len() ==> #[trigger] touched(s, key, stamp)[i].1 == s[i].1,
        keys_distinct(s) ==> keys_distinct(touched(s, key, stamp)),
{
    lemma_first_slot(s, key);
    let t = touched(s, key, stamp);
    assert forall|i: int| 0 <= i < s.len() implies #[trigger] t[i].0 == s[i].0 && t[i].1 == s[i].1 by {
        if holds_key(s, key) && i == lookup_slot(s, key) {
        } else {
            assert(t[i] == s[i]);
        }
    }
    if keys_distinct(s) {
        assert forall|i: int, j: int|
            0 <= i < t.len() && 0 <= j < t.len() && i != j implies #[trigger] t[i].0 != #[trigger] t[j].0 by {
            assert(t[i].0 == s[i].0);
            assert(t[j].0 == s[j].0);
        }
    }
}

} // verus!

verus! {

/// An insertion places exactly one new entry, the inserted glyph under its
/// index stamped with the clock, and leaves every other slot as it was: a
/// free slot is taken at the end, otherwise the oldest entry is overwritten.
pub proof fn law_insert_stamps_with_clock<G>(s: Seq<CacheEntry<G>>, cap: usize, key: u16, g: G, stamp: usize)
    requires
        s.len() < cap || s.len() > 0,
    ensures
        exists|i: int| {
            &&& 0 <= i < inserted(s, cap, key, g, stamp).len()
            &&& #[trigger] inserted(s, cap, key, g, stamp)[i] == (key, g, stamp)
            &&& (s.len() < cap ==> i == s.len())
            &&& (s.len() >= cap ==> oldest_slot(s, i))
            &&& forall|j: int| 0 <= j < s.len() && j != i ==> #[trigger] inserted(s, cap, key, g, stamp)[j] == s[j]
        },
        s.len() < cap ==> inserted(s, cap, key, g, stamp).len() == s.len() + 1,
        s.len() >= cap ==> inserted(s, cap, key, g, stamp).len() == s.len(),
        inserted(s, cap, key, g, stamp).contains((key, g, stamp)),
{
    let u = inserted(s, cap, key, g, stamp);
    let i = if s.len() < cap {
        s.len() as int
    } else {
        lemma_eviction_slot(s);
        eviction_slot(s)
    };
    assert(u[i] == (key, g, stamp));
    assert forall|j: int| 0 <= j < s.len() && j != i implies #[trigger] u[j] == s[j] by {}
}

/// An entry just inserted outlives the next eviction: when every stamp in
/// the cache is behind the clock, a glyph inserted at the clock is not the one
/// replaced by the following insertion into a full cache of at least two
/// entries.
pub proof fn law_inserted_survives_next_eviction<G>(
    s: Seq<CacheEntry<G>>,
    cap: usize,
    key: u16,
    g: G,
    stamp: usize,
    other: u16,
    h: G,
    later: usize,
)
    requires
        forall|i: int| 0 <= i < s.len() ==> #[trigger] s[i].2 < stamp,
        !holds_key(s, key),
        s.len() < cap || s.len() > 0,
        inserted(s, cap, key, g, stamp).len() >= cap,
        inserted(s, cap, key, g, stamp).len() >= 2,
        other != key,
    ensures
        holds_key(inserted(inserted(s, cap, key, g, stamp), cap, other, h, later), key),
{
    let u = inserted(s, cap, key, g, stamp);
    law_insert_stamps_with_clock(s, cap, key, g, stamp);
    let i = choose|i: int| {
        &&& 0 <= i < u.len()
        &&& #[trigger] u[i] == (key, g, stamp)
        &&& (s.len() < cap ==> i == s.len())
        &&& (s.len() >= cap ==> oldest_slot(s, i))
        &&& forall|j: int| 0 <= j < s.len() && j != i ==> #[trigger] u[j] == s[j]
    };
    lemma_eviction_slot(u);
    let e = eviction_slot(u);
    // Some other entry is older than the new one.
    let o = if i == 0 { 1int } else { 0int };
    assert(o < s.len());
    assert(u[o] == s[o]);
    assert(u[o].2 < stamp);
    assert(u[e].2 <= u[o].2);
    assert(e != i);
    let w = inserted(u, cap, other, h, later);
    assert(w[i] == u[i]);
    assert(w[i].0 == key);
}

} // verus!
