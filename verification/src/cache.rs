//! TTL response cache: a capacity-bounded store of prior successful
//! results. Entries expire at an explicit millisecond deadline; reads are
//! answered only from live entries and lazily remove expired ones. Every
//! read counts exactly one hit or one miss.
//!
//! Callers supply the clock as a `now_ms` argument, so every contract is a
//! deterministic function of the arguments.

use vstd::prelude::*;
use vstd::pervasive::cloned;
use vstd::pervasive::VecAdditionalExecFns;
use crate::strutil::str_eq;

verus! {

/// Hit/miss counters of a cache. `entries` mirrors the store's size after
/// the latest mutation; `cleanup_count` counts sweeps.
#[derive(Debug, Clone, Copy, PartialEq, Eq, Structural)]
pub struct CacheMetrics {
    pub hits: u64,
    pub misses: u64,
    pub entries: u64,
    pub cleanup_count: u64,
}

impl CacheMetrics {
    /// All counters at zero.
    pub open spec fn spec_zero() -> CacheMetrics {
        CacheMetrics { hits: 0, misses: 0, entries: 0, cleanup_count: 0 }
    }

    pub fn zero() -> (r: CacheMetrics)
        ensures
            r == CacheMetrics::spec_zero(),
    {
        CacheMetrics { hits: 0, misses: 0, entries: 0, cleanup_count: 0 }
    }
}

/// A counter bump that stops at the type's ceiling instead of wrapping.
pub open spec fn spec_inc(x: u64) -> u64 {
    if x < u64::MAX {
        (x + 1) as u64
    } else {
        x
    }
}

pub fn inc_u64(x: u64) -> (r: u64)
    ensures
        r == spec_inc(x),
{
    if x < u64::MAX {
        x + 1
    } else {
        x
    }
}

/// One cached value together with its key and expiry deadline.
#[derive(Debug)]
pub struct CacheEntry<T> {
    pub key: String,
    pub value: T,
    pub expires_at_ms: u64,
}

/// The index of the first entry with the given key, if any.
pub open spec fn cache_find<T>(s: Seq<CacheEntry<T>>, key: Seq<char>) -> Option<int>
    decreases s.len(),
{
    if s.len() == 0 {
        None
    } else if s[0].key@ == key {
        Some(0)
    } else {
        match cache_find(s.drop_first(), key) {
            Some(i) => Some(i + 1),
            None => None,
        }
    }
}

/// What `cache_find` returns: the first index holding the key, or nothing
/// when no entry holds it.
pub proof fn lemma_cache_find<T>(s: Seq<CacheEntry<T>>, key: Seq<char>)
    ensures
        match cache_find(s, key) {
            Some(i) => 0 <= i < s.len() && s[i].key@ == key && forall|j: int|
                0 <= j < i ==> s[j].key@ != key,
            None => forall|j: int| 0 <= j < s.len() ==> s[j].key@ != key,
        },
    decreases s.len(),
{
    if s.len() == 0 {
    } else if s[0].key@ == key {
    } else {
        lemma_cache_find(s.drop_first(), key);
        assert forall|j: int| 1 <= j < s.len() implies s[j] == s.drop_first()[j - 1] by {}
    }
}

/// Keys are pairwise distinct.
pub open spec fn cache_keys_distinct<T>(s: Seq<CacheEntry<T>>) -> bool {
    forall|i: int, j: int| 0 <= i < j < s.len() ==> s[i].key@ != s[j].key@
}

/// Filtering keeps every element inside the original sequence, and keeps
/// pairwise-distinct keys distinct.
proof fn lemma_filter_keeps_distinct<T>(s: Seq<CacheEntry<T>>, p: spec_fn(CacheEntry<T>) -> bool)
    ensures
        forall|x: CacheEntry<T>| #[trigger] s.filter(p).contains(x) ==> s.contains(x),
        cache_keys_distinct(s) ==> cache_keys_distinct(s.filter(p)),
    decreases s.len(),
{
    reveal(Seq::filter);
    if s.len() == 0 {
    } else {
        let d = s.drop_last();
        lemma_filter_keeps_distinct(d, p);
        assert forall|x: CacheEntry<T>| #[trigger] s.filter(p).contains(x) implies s.contains(
            x,
        ) by {
            if d.filter(p).contains(x) {
                let j = choose|j: int| 0 <= j < d.len() && d[j] == x;
                assert(s[j] == x);
            } else {
                assert(x == s.last());
                assert(s[s.len() - 1] == x);
            }
        }
        if cache_keys_distinct(s) {
            assert(cache_keys_distinct(d)) by {
                assert forall|i: int, j: int| 0 <= i < j < d.len() implies d[i].key@
                    != d[j].key@ by {
                    assert(d[i] == s[i] && d[j] == s[j]);
                }
            }
            let f = s.filter(p);
            let fd = d.filter(p);
            assert forall|i: int, j: int| 0 <= i < j < f.len() implies f[i].key@ != f[j].key@ by {
                if p(s.last()) && j == f.len() - 1 {
                    assert(f[j] == s.last());
                    assert(fd.contains(f[i]));
                    let a = choose|a: int| 0 <= a < d.len() && d[a] == f[i];
                    assert(s[a] == f[i]);
                    assert(s[a].key@ != s[s.len() - 1].key@);
                } else {
                    assert(f[i] == fd[i] && f[j] == fd[j]);
                }
            }
        }
    }
}

/// A TTL response cache with bounded capacity and hit/miss accounting.
pub struct ResponseCache<T> {
    pub entries: Vec<CacheEntry<T>>,
    pub default_ttl_ms: u64,
    pub max_entries: usize,
    pub metrics: CacheMetrics,
}

impl<T: Clone> ResponseCache<T> {
    /// The cache invariant: keys are distinct, the store never exceeds its
    /// capacity, and the capacity is positive.
    pub open spec fn wf(self) -> bool {
        &&& cache_keys_distinct(self.entries@)
        &&& self.entries@.len() <= self.max_entries
        &&& self.max_entries >= 1
    }

    /// The time-to-live applied to an insertion: the explicit one, or the
    /// cache's default.
    pub open spec fn spec_ttl(self, ttl_ms: Option<u64>) -> u64 {
        match ttl_ms {
            Some(t) => t,
            None => self.default_ttl_ms,
        }
    }

    /// How many entries an insertion evicts when the cache is full: a
    /// tenth of the capacity, and at least one.
    pub open spec fn spec_evict_count(self) -> int {
        if self.max_entries / 10 >= 1 {
            self.max_entries as int / 10
        } else {
            1
        }
    }

    pub fn new(default_ttl_ms: u64, max_entries: usize) -> (r: Self)
        requires
            max_entries >= 1,
        ensures
            r.entries@ == Seq::<CacheEntry<T>>::empty(),
            r.default_ttl_ms == default_ttl_ms,
            r.max_entries == max_entries,
            r.metrics == CacheMetrics::spec_zero(),
            r.wf(),
    {
        ResponseCache {
            entries: Vec::new(),
            default_ttl_ms,
            max_entries,
            metrics: CacheMetrics::zero(),
        }
    }

    /// A cache with the stock settings: sixty-second TTL, a thousand
    /// entries.
    pub fn default() -> (r: Self)
        ensures
            r.entries@ == Seq::<CacheEntry<T>>::empty(),
            r.default_ttl_ms == 60000,
            r.max_entries == 1000,
            r.metrics == CacheMetrics::spec_zero(),
            r.wf(),
    {
        Self::new(60000, 1000)
    }

    fn find_index(&self, key: &str) -> (r: Option<usize>)
        ensures
            match r {
                Some(i) => cache_find(self.entries@, key@) == Some(i as int),
                None => cache_find(self.entries@, key@) is None,
            },
    {
        let n: usize = self.entries.len();
        let mut i: usize = 0;
        while i < n
            invariant
                i <= n,
                n == self.entries@.len(),
                forall|j: int| 0 <= j < i ==> self.entries@[j].key@ != key@,
            decreases n - i,
        {
            if str_eq(self.entries[i].key.as_str(), key) {
                proof {
                    lemma_cache_find(self.entries@, key@);
                }
                return Some(i);
            }
            i = i + 1;
        }
        proof {
            lemma_cache_find(self.entries@, key@);
        }
        None
    }

    /// Look a key up at time `now_ms`. A live entry's value is returned
    /// and counted as a hit; an expired entry is removed and counted as a
    /// miss, as is an absent key. Nothing else changes.
    pub fn get(&mut self, key: &str, now_ms: u64) -> (r: Option<T>)
        requires
            old(self).wf(),
        ensures
            final(self).wf(),
            final(self).default_ttl_ms == old(self).default_ttl_ms,
            final(self).max_entries == old(self).max_entries,
            final(self).metrics.cleanup_count == old(self).metrics.cleanup_count,
            match cache_find(old(self).entries@, key@) {
                Some(i) => {
                    if old(self).entries@[i].expires_at_ms > now_ms {
                        &&& r matches Some(v) && cloned(old(self).entries@[i].value, v)
                        &&& final(self).entries@ == old(self).entries@
                        &&& final(self).metrics == (CacheMetrics {
                            hits: spec_inc(old(self).metrics.hits),
                            ..old(self).metrics
                        })
                    } else {
                        &&& r is None
                        &&& final(self).entries@ == old(self).entries@.remove(i)
                        &&& final(self).metrics == (CacheMetrics {
                            misses: spec_inc(old(self).metrics.misses),
                            entries: final(self).entries@.len() as u64,
                            ..old(self).metrics
                        })
                    }
                },
                None => {
                    &&& r is None
                    &&& final(self).entries@ == old(self).entries@
                    &&& final(self).metrics == (CacheMetrics {
                        misses: spec_inc(old(self).metrics.misses),
                        ..old(self).metrics
                    })
                },
            },
    {
        let found = self.find_index(key);
        proof {
            lemma_cache_find(self.entries@, key@);
        }
        match found {
            Some(i) => {
                if self.entries[i].expires_at_ms > now_ms {
                    self.metrics.hits = inc_u64(self.metrics.hits);
                    Some(self.entries[i].value.clone())
                } else {
                    self.entries.remove(i);
                    self.metrics.entries = self.entries.len() as u64;
                    self.metrics.misses = inc_u64(self.metrics.misses);
                    proof {
                        let olds = old(self).entries@;
                        assert forall|a: int, b: int|
                            0 <= a < b < self.entries@.len() implies self.entries@[a].key@
                            != self.entries@[b].key@ by {
                            assert(self.entries@[a] == if a < i {
                                olds[a]
                            } else {
                                olds[a + 1]
                            });
                            assert(self.entries@[b] == if b < i {
                                olds[b]
                            } else {
                                olds[b + 1]
                            });
                        }
                    }
                    None
                }
            },
            None => {
                self.metrics.misses = inc_u64(self.metrics.misses);
                None
            },
        }
    }

    /// Insert or overwrite a value at time `now_ms`, expiring after the
    /// given (or default) TTL. A known key is overwritten in place; a new
    /// key is appended, after evicting the oldest tenth of the store when
    /// it is full. The store never exceeds its capacity.
    pub fn set(&mut self, key: String, value: T, ttl_ms: Option<u64>, now_ms: u64)
        requires
            old(self).wf(),
            now_ms + old(self).spec_ttl(ttl_ms) <= u64::MAX,
        ensures
            final(self).wf(),
            final(self).default_ttl_ms == old(self).default_ttl_ms,
            final(self).max_entries == old(self).max_entries,
            ({
                let expires = (now_ms + old(self).spec_ttl(ttl_ms)) as u64;
                let entry = CacheEntry { key, value, expires_at_ms: expires };
                match cache_find(old(self).entries@, key@) {
                    Some(i) => final(self).entries@ == old(self).entries@.update(i, entry),
                    None => {
                        if old(self).entries@.len() < old(self).max_entries {
                            final(self).entries@ == old(self).entries@.push(entry)
                        } else {
                            final(self).entries@ == old(self).entries@.subrange(
                                old(self).spec_evict_count(),
                                old(self).entries@.len() as int,
                            ).push(entry)
                        }
                    },
                }
            }),
            final(self).metrics == (CacheMetrics {
                entries: final(self).entries@.len() as u64,
                ..old(self).metrics
            }),
    {
        let ttl: u64 = match ttl_ms {
            Some(t) => t,
            None => self.default_ttl_ms,
        };
        let expires_at_ms: u64 = now_ms + ttl;
        let found = self.find_index(key.as_str());
        proof {
            lemma_cache_find(self.entries@, key@);
        }
        match found {
            Some(i) => {
                self.entries.set(i, CacheEntry { key, value, expires_at_ms });
            },
            None => {
                if self.entries.len() >= self.max_entries {
                    let evict: usize = if self.max_entries / 10 >= 1 {
                        self.max_entries / 10
                    } else {
                        1
                    };
                    let ghost olds = self.entries@;
                    let mut k: usize = 0;
                    while k < evict
                        invariant
                            k <= evict,
                            evict <= olds.len(),
                            self.entries@ == olds.subrange(k as int, olds.len() as int),
                            self.default_ttl_ms == old(self).default_ttl_ms,
                            self.max_entries == old(self).max_entries,
                            self.metrics == old(self).metrics,
                        decreases evict - k,
                    {
                        self.entries.remove(0);
                        proof {
                            assert(self.entries@ =~= olds.subrange(k + 1, olds.len() as int));
                        }
                        k = k + 1;
                    }
                }
                self.entries.push(CacheEntry { key, value, expires_at_ms });
            },
        }
        self.metrics.entries = self.entries.len() as u64;
        proof {
            let olds = old(self).entries@;
            let news = self.entries@;
            match cache_find(olds, key@) {
                Some(i) => {
                    assert forall|a: int, b: int|
                        0 <= a < b < news.len() implies news[a].key@ != news[b].key@ by {
                        assert(olds[a].key@ != olds[b].key@);
                    }
                },
                None => {
                    assert forall|a: int, b: int|
                        0 <= a < b < news.len() implies news[a].key@ != news[b].key@ by {}
                },
            }
        }
    }

    /// Remove a key unconditionally.
    pub fn delete(&mut self, key: &str)
        requires
            old(self).wf(),
        ensures
            final(self).wf(),
            final(self).default_ttl_ms == old(self).default_ttl_ms,
            final(self).max_entries == old(self).max_entries,
            match cache_find(old(self).entries@, key@) {
                Some(i) => final(self).entries@ == old(self).entries@.remove(i),
                None => final(self).entries@ == old(self).entries@,
            },
            final(self).metrics == (CacheMetrics {
                entries: final(self).entries@.len() as u64,
                ..old(self).metrics
            }),
    {
        let found = self.find_index(key);
        proof {
            lemma_cache_find(self.entries@, key@);
        }
        match found {
            Some(i) => {
                self.entries.remove(i);
                proof {
                    let olds = old(self).entries@;
                    assert forall|a: int, b: int|
                        0 <= a < b < self.entries@.len() implies self.entries@[a].key@
                        != self.entries@[b].key@ by {
                        assert(self.entries@[a] == if a < i {
                            olds[a]
                        } else {
                            olds[a + 1]
                        });
                        assert(self.entries@[b] == if b < i {
                            olds[b]
                        } else {
                            olds[b + 1]
                        });
                    }
                }
            },
            None => {},
        }
        self.metrics.entries = self.entries.len() as u64;
    }

    /// Drop every entry.
    pub fn clear(&mut self)
        ensures
            old(self).wf() ==> final(self).wf(),
            final(self).entries@ == Seq::<CacheEntry<T>>::empty(),
            final(self).default_ttl_ms == old(self).default_ttl_ms,
            final(self).max_entries == old(self).max_entries,
            final(self).metrics == (CacheMetrics { entries: 0, ..old(self).metrics }),
    {
        self.entries = Vec::new();
        self.metrics.entries = 0;
    }

    /// Remove every entry whose deadline has passed, and count the sweep.
    /// Returns how many entries were removed.
    pub fn cleanup_expired(&mut self, now_ms: u64) -> (removed: usize)
        requires
            old(self).wf(),
        ensures
            final(self).wf(),
            final(self).default_ttl_ms == old(self).default_ttl_ms,
            final(self).max_entries == old(self).max_entries,
            final(self).entries@ == old(self).entries@.filter(
                |e: CacheEntry<T>| e.expires_at_ms > now_ms,
            ),
            removed == old(self).entries@.len() - final(self).entries@.len(),
            final(self).metrics == (CacheMetrics {
                entries: final(self).entries@.len() as u64,
                cleanup_count: spec_inc(old(self).metrics.cleanup_count),
                ..old(self).metrics
            }),
    {
        let ghost olds = self.entries@;
        let ghost pred = |e: CacheEntry<T>| e.expires_at_ms > now_ms;
        let ghost n = olds.len() as int;
        let total: usize = self.entries.len();
        let mut i: usize = 0;
        let ghost mut j: int = 0;
        proof {
            reveal(Seq::filter);
            assert(olds.subrange(0, 0).filter(pred) =~= Seq::<CacheEntry<T>>::empty());
            assert(olds.subrange(0, n) =~= olds);
        }
        while i < self.entries.len()
            invariant
                0 <= j <= n,
                n == olds.len(),
                i == olds.subrange(0, j).filter(pred).len(),
                self.entries@ == olds.subrange(0, j).filter(pred) + olds.subrange(j, n),
                pred == (|e: CacheEntry<T>| e.expires_at_ms > now_ms),
                self.default_ttl_ms == old(self).default_ttl_ms,
                self.max_entries == old(self).max_entries,
                self.metrics == old(self).metrics,
            decreases n - j,
        {
            proof {
                reveal(Seq::filter);
                assert(j < n);
                assert(self.entries@[i as int] == olds[j]);
                assert(olds.subrange(0, j + 1).drop_last() =~= olds.subrange(0, j));
                assert(olds.subrange(0, j + 1).last() == olds[j]);
            }
            if self.entries[i].expires_at_ms > now_ms {
                proof {
                    assert(olds.subrange(0, j + 1).filter(pred) == olds.subrange(0, j).filter(
                        pred,
                    ).push(olds[j]));
                    assert(olds.subrange(0, j + 1).filter(pred) + olds.subrange(j + 1, n)
                        =~= olds.subrange(0, j).filter(pred) + olds.subrange(j, n));
                    j = j + 1;
                }
                i = i + 1;
            } else {
                self.entries.remove(i);
                proof {
                    assert(olds.subrange(0, j + 1).filter(pred) == olds.subrange(0, j).filter(
                        pred,
                    ));
                    assert(self.entries@ =~= olds.subrange(0, j + 1).filter(pred) + olds.subrange(
                        j + 1,
                        n,
                    ));
                    j = j + 1;
                }
            }
        }
        proof {
            reveal(Seq::filter);
            assert(j == n) by {
                if j < n {
                    assert(self.entries@.len() > i);
                }
            }
            assert(self.entries@ =~= olds.filter(pred));
            lemma_filter_keeps_distinct(olds, pred);
            olds.lemma_filter_len(pred);
        }
        let removed: usize = total - self.entries.len();
        self.metrics.entries = self.entries.len() as u64;
        self.metrics.cleanup_count = inc_u64(self.metrics.cleanup_count);
        removed
    }

    /// The number of entries currently stored, expired or not.
    pub fn size(&self) -> (r: usize)
        ensures
            r == self.entries@.len(),
    {
        self.entries.len()
    }

    pub fn get_metrics(&self) -> (r: CacheMetrics)
        ensures
            r == self.metrics,
    {
        self.metrics
    }

    /// Reset every counter to zero; the stored entries stay.
    pub fn reset_metrics(&mut self)
        ensures
            final(self).metrics == CacheMetrics::spec_zero(),
            final(self).entries@ == old(self).entries@,
            final(self).default_ttl_ms == old(self).default_ttl_ms,
            final(self).max_entries == old(self).max_entries,
    {
        self.metrics = CacheMetrics::zero();
    }
}

} // verus!
