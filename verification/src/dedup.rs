//! Single-flight request deduplication. Concurrent identical requests are
//! coalesced: the first caller for a key becomes the leader and runs the
//! operation once; followers wait and observe the leader's published
//! result. A bounded completed-result cache can answer repeats of recently
//! finished requests.
//!
//! The asynchronous driver loop lives with the surrounding I/O layer; this
//! module holds the state and the three decision steps it is built from —
//! [`RequestDeduplicator::try_begin`], [`RequestDeduplicator::publish`] and
//! [`RequestDeduplicator::poll_result`] — each with an exact contract.

use vstd::prelude::*;
use vstd::string::StringExecFns;
use vstd::utf8::encode_utf8;
use crate::strutil::{bytes_to_hex, spec_hex, str_eq};
use sha2::Digest;

verus! {

/// The digest sha2 computes for a byte string.
pub uninterp spec fn spec_sha256(data: Seq<u8>) -> Seq<u8>;

/// Relies on `sha2::Sha256::digest`: the digest depends on the input bytes
/// alone, and is 32 bytes long.
#[verifier::external_body]
fn sha256(data: &[u8]) -> (r: Vec<u8>)
    ensures
        r@ == spec_sha256(data@),
        r@.len() == 32,
{
    sha2::Sha256::digest(data).to_vec()
}

/// The text a request key is derived from: the endpoint, a colon, and the
/// serialized parameters (empty when there are none).
pub open spec fn spec_key_material(endpoint: Seq<char>, params: Option<Seq<char>>) -> Seq<char> {
    endpoint + ":"@ + match params {
        Some(p) => p,
        None => Seq::empty(),
    }
}

/// The deduplication key: a fixed prefix plus the hex-rendered digest of
/// the key material. Equal logical requests get equal keys.
pub open spec fn spec_request_key(endpoint: Seq<char>, params: Option<Seq<char>>) -> Seq<char> {
    "req_"@ + spec_hex(spec_sha256(encode_utf8(spec_key_material(endpoint, params))))
}

/// Counters and sizes reported by the deduplicator.
#[derive(Debug, Clone, Copy, PartialEq, Eq, Structural)]
pub struct DeduplicatorStats {
    pub hits: u64,
    pub misses: u64,
    pub errors: u64,
    pub pending_count: usize,
    pub completed_count: usize,
    pub ttl_ms: u64,
}

/// An in-flight request: unresolved while the leader is executing, and
/// holding the leader's result once published.
#[derive(Debug)]
pub struct PendingEntry {
    pub key: String,
    pub result: Option<Result<String, String>>,
}

/// The index of the first pending entry with the given key, if any.
pub open spec fn pending_find(s: Seq<PendingEntry>, key: Seq<char>) -> Option<int>
    decreases s.len(),
{
    if s.len() == 0 {
        None
    } else if s[0].key@ == key {
        Some(0)
    } else {
        match pending_find(s.drop_first(), key) {
            Some(i) => Some(i + 1),
            None => None,
        }
    }
}

/// What `pending_find` returns: the first index holding the key, or
/// nothing when no entry holds it.
pub proof fn lemma_pending_find(s: Seq<PendingEntry>, key: Seq<char>)
    ensures
        match pending_find(s, key) {
            Some(i) => 0 <= i < s.len() && s[i].key@ == key && forall|j: int|
                0 <= j < i ==> s[j].key@ != key,
            None => forall|j: int| 0 <= j < s.len() ==> s[j].key@ != key,
        },
    decreases s.len(),
{
    if s.len() == 0 {
    } else if s[0].key@ == key {
    } else {
        lemma_pending_find(s.drop_first(), key);
        assert forall|j: int| 1 <= j < s.len() implies s[j] == s.drop_first()[j - 1] by {}
    }
}

/// The index of the first completed pair with the given key, if any.
pub open spec fn completed_find(s: Seq<(String, String)>, key: Seq<char>) -> Option<int>
    decreases s.len(),
{
    if s.len() == 0 {
        None
    } else if s[0].0@ == key {
        Some(0)
    } else {
        match completed_find(s.drop_first(), key) {
            Some(i) => Some(i + 1),
            None => None,
        }
    }
}

/// What `completed_find` returns.
pub proof fn lemma_completed_find(s: Seq<(String, String)>, key: Seq<char>)
    ensures
        match completed_find(s, key) {
            Some(i) => 0 <= i < s.len() && s[i].0@ == key && forall|j: int|
                0 <= j < i ==> s[j].0@ != key,
            None => forall|j: int| 0 <= j < s.len() ==> s[j].0@ != key,
        },
    decreases s.len(),
{
    if s.len() == 0 {
    } else if s[0].0@ == key {
    } else {
        lemma_completed_find(s.drop_first(), key);
        assert forall|j: int| 1 <= j < s.len() implies s[j] == s.drop_first()[j - 1] by {}
    }
}

/// What `try_begin` answers a caller.
#[derive(Debug)]
pub enum BeginOutcome {
    /// The completed cache already holds the result; here it is.
    Cached(String),
    /// A leader is executing this key; wait and poll for its result.
    Follower,
    /// Nobody is executing this key; the caller runs the operation and
    /// must publish the result.
    Leader,
}

/// The three-way decision, without payload.
#[derive(Debug, Clone, Copy, PartialEq, Eq, Structural)]
pub enum BeginDecision {
    Cached,
    Follower,
    Leader,
}

/// The decision an outcome carries.
pub open spec fn outcome_decision(o: BeginOutcome) -> BeginDecision {
    match o {
        BeginOutcome::Cached(_) => BeginDecision::Cached,
        BeginOutcome::Follower => BeginDecision::Follower,
        BeginOutcome::Leader => BeginDecision::Leader,
    }
}

/// Prevents duplicate requests from being executed within a short window:
/// tracks in-flight requests per key and a bounded cache of completed
/// results.
#[derive(Debug)]
pub struct RequestDeduplicator {
    pub pending: Vec<PendingEntry>,
    pub completed: Vec<(String, String)>,
    pub ttl_ms: u64,
    pub max_pending: usize,
    pub max_completed: usize,
    pub hits: u64,
    pub misses: u64,
    pub errors: u64,
}

/// The decision `try_begin` takes for a key: answer from the completed
/// cache when allowed and present; follow an unresolved in-flight entry;
/// otherwise lead.
pub open spec fn spec_begin_decision(
    d: RequestDeduplicator,
    key: Seq<char>,
    use_cache: bool,
) -> BeginDecision {
    if use_cache && completed_find(d.completed@, key) is Some {
        BeginDecision::Cached
    } else if pending_find(d.pending@, key) matches Some(i) && d.pending@[i].result is None {
        BeginDecision::Follower
    } else {
        BeginDecision::Leader
    }
}

/// Single-flight law: while a leader for a key is in flight — the pending
/// map holds an unresolved entry for it — no further call for that key is
/// granted leadership, whatever the cache flag says.
pub proof fn lemma_single_flight(d: RequestDeduplicator, key: Seq<char>, use_cache: bool)
    requires
        pending_find(d.pending@, key) matches Some(i) && d.pending@[i].result is None,
    ensures
        spec_begin_decision(d, key, use_cache) != BeginDecision::Leader,
{
}

impl RequestDeduplicator {
    /// The deduplicator invariant: keys are distinct in both maps and both
    /// maps respect their positive bounds.
    pub open spec fn wf(self) -> bool {
        &&& forall|i: int, j: int|
            0 <= i < j < self.pending@.len() ==> self.pending@[i].key@ != self.pending@[j].key@
        &&& forall|i: int, j: int|
            0 <= i < j < self.completed@.len() ==> self.completed@[i].0@ != self.completed@[j].0@
        &&& self.pending@.len() <= self.max_pending
        &&& self.completed@.len() <= self.max_completed
        &&& self.max_pending >= 1
        &&& self.max_completed >= 1
    }

    pub fn new(ttl_ms: u64, max_pending: usize, max_completed: usize) -> (r: Self)
        requires
            max_pending >= 1,
            max_completed >= 1,
        ensures
            r.pending@ == Seq::<PendingEntry>::empty(),
            r.completed@ == Seq::<(String, String)>::empty(),
            r.ttl_ms == ttl_ms,
            r.max_pending == max_pending,
            r.max_completed == max_completed,
            r.hits == 0 && r.misses == 0 && r.errors == 0,
            r.wf(),
    {
        RequestDeduplicator {
            pending: Vec::new(),
            completed: Vec::new(),
            ttl_ms,
            max_pending,
            max_completed,
            hits: 0,
            misses: 0,
            errors: 0,
        }
    }

    /// A deduplicator with the stock settings: five-second TTL, a thousand
    /// pending slots, ten thousand completed slots.
    pub fn default() -> (r: Self)
        ensures
            r.pending@ == Seq::<PendingEntry>::empty(),
            r.completed@ == Seq::<(String, String)>::empty(),
            r.ttl_ms == 5000,
            r.max_pending == 1000,
            r.max_completed == 10000,
            r.hits == 0 && r.misses == 0 && r.errors == 0,
            r.wf(),
    {
        Self::new(5000, 1000, 10000)
    }

    /// Derive the deduplication key for a request: equal endpoints and
    /// parameters always give equal keys.
    pub fn generate_key(&self, endpoint: &str, params_json: Option<&str>) -> (r: String)
        ensures
            r@ == spec_request_key(
                endpoint@,
                match params_json {
                    Some(p) => Some(p@),
                    None => None,
                },
            ),
    {
        let mut material: String = endpoint.to_owned();
        material.append(":");
        match params_json {
            Some(p) => {
                material.append(p);
                proof {
                    assert(material@ =~= spec_key_material(endpoint@, Some(p@)));
                }
            },
            None => {
                proof {
                    assert(material@ =~= spec_key_material(endpoint@, None));
                }
            },
        }
        let digest: Vec<u8> = sha256(material.as_str().as_bytes());
        let hex: String = bytes_to_hex(&digest);
        String::from_str("req_").concat(hex.as_str())
    }

    fn find_pending(&self, key: &str) -> (r: Option<usize>)
        ensures
            match r {
                Some(i) => pending_find(self.pending@, key@) == Some(i as int),
                None => pending_find(self.pending@, key@) is None,
            },
    {
        let n: usize = self.pending.len();
        let mut i: usize = 0;
        while i < n
            invariant
                i <= n,
                n == self.pending@.len(),
                forall|j: int| 0 <= j < i ==> self.pending@[j].key@ != key@,
            decreases n - i,
        {
            if str_eq(self.pending[i].key.as_str(), key) {
                proof {
                    lemma_pending_find(self.pending@, key@);
                }
                return Some(i);
            }
            i = i + 1;
        }
        proof {
            lemma_pending_find(self.pending@, key@);
        }
        None
    }

    fn find_completed(&self, key: &str) -> (r: Option<usize>)
        ensures
            match r {
                Some(i) => completed_find(self.completed@, key@) == Some(i as int),
                None => completed_find(self.completed@, key@) is None,
            },
    {
        let n: usize = self.completed.len();
        let mut i: usize = 0;
        while i < n
            invariant
                i <= n,
                n == self.completed@.len(),
                forall|j: int| 0 <= j < i ==> self.completed@[j].0@ != key@,
            decreases n - i,
        {
            if str_eq(self.completed[i].0.as_str(), key) {
                proof {
                    lemma_completed_find(self.completed@, key@);
                }
                return Some(i);
            }
            i = i + 1;
        }
        proof {
            lemma_completed_find(self.completed@, key@);
        }
        None
    }

    /// Open a request for `key`. Answers from the completed cache when
    /// `use_cache` is set and the key is present (a hit); reports an
    /// unresolved in-flight key as one to follow (a hit); otherwise grants
    /// leadership (a miss) and registers the in-flight entry, evicting the
    /// oldest pending entry if the map is full.
    pub fn try_begin(&mut self, key: &str, use_cache: bool) -> (r: BeginOutcome)
        requires
            old(self).wf(),
        ensures
            final(self).wf(),
            outcome_decision(r) == spec_begin_decision(*old(self), key@, use_cache),
            final(self).ttl_ms == old(self).ttl_ms,
            final(self).max_pending == old(self).max_pending,
            final(self).max_completed == old(self).max_completed,
            final(self).completed@ == old(self).completed@,
            final(self).errors == old(self).errors,
            match spec_begin_decision(*old(self), key@, use_cache) {
                BeginDecision::Cached => {
                    &&& (r matches BeginOutcome::Cached(v) && v@ == old(self).completed@[
                        completed_find(old(self).completed@, key@)->0].1@)
                    &&& final(self).pending@ == old(self).pending@
                    &&& final(self).hits == crate::cache::spec_inc(old(self).hits)
                    &&& final(self).misses == old(self).misses
                },
                BeginDecision::Follower => {
                    &&& final(self).pending@ == old(self).pending@
                    &&& final(self).hits == crate::cache::spec_inc(old(self).hits)
                    &&& final(self).misses == old(self).misses
                },
                BeginDecision::Leader => {
                    &&& final(self).misses == crate::cache::spec_inc(old(self).misses)
                    &&& final(self).hits == old(self).hits
                    &&& pending_find(final(self).pending@, key@) matches Some(i) && final(self).pending@[i].result is None
                    &&& match pending_find(old(self).pending@, key@) {
                        Some(i) => final(self).pending@ == old(self).pending@.update(
                            i,
                            PendingEntry { key: final(self).pending@[i].key, result: None },
                        ),
                        None => {
                            if old(self).pending@.len() < old(self).max_pending {
                                final(self).pending@.drop_last() == old(self).pending@
                                    && final(self).pending@.len() == old(self).pending@.len() + 1
                            } else {
                                final(self).pending@.drop_last() == old(self).pending@.subrange(
                                    1,
                                    old(self).pending@.len() as int,
                                ) && final(self).pending@.len() == old(self).pending@.len()
                            }
                        },
                    }
                },
            },
    {
        proof {
            lemma_pending_find(self.pending@, key@);
            lemma_completed_find(self.completed@, key@);
        }
        if use_cache {
            let cf = self.find_completed(key);
            match cf {
                Some(i) => {
                    self.hits = crate::cache::inc_u64(self.hits);
                    return BeginOutcome::Cached(self.completed[i].1.clone());
                },
                None => {},
            }
        }
        let pf = self.find_pending(key);
        match pf {
            Some(i) => {
                if self.pending[i].result.is_none() {
                    self.hits = crate::cache::inc_u64(self.hits);
                    return BeginOutcome::Follower;
                }
                // A resolved entry is stale: replace it and lead anew.
                let fresh = PendingEntry { key: key.to_owned(), result: None };
                let ghost before = self.pending@;
                self.pending.set(i, fresh);
                self.misses = crate::cache::inc_u64(self.misses);
                proof {
                    assert forall|a: int, b: int|
                        0 <= a < b < self.pending@.len() implies self.pending@[a].key@
                        != self.pending@[b].key@ by {
                        assert(before[a].key@ != before[b].key@);
                        assert(before[i as int].key@ == key@);
                    }
                    lemma_pending_find(self.pending@, key@);
                    let pf2 = pending_find(self.pending@, key@);
                    assert(pf2 is Some);
                    let i2 = pf2->0;
                    assert(self.pending@[i2].key@ == key@);
                    assert(i2 == i) by {
                        if i2 < i {
                            assert(old(self).pending@[i2].key@ == self.pending@[i2].key@);
                        }
                    }
                    assert(self.pending@ =~= old(self).pending@.update(
                        i as int,
                        PendingEntry { key: self.pending@[i as int].key, result: None },
                    ));
                }
                return BeginOutcome::Leader;
            },
            None => {},
        }
        // No entry for the key: lead.
        if self.pending.len() >= self.max_pending {
            self.pending.remove(0);
            proof {
                let olds = old(self).pending@;
                assert forall|a: int, b: int|
                    0 <= a < b < self.pending@.len() implies self.pending@[a].key@
                    != self.pending@[b].key@ by {
                    assert(self.pending@[a] == olds[a + 1] && self.pending@[b] == olds[b + 1]);
                }
            }
        }
        self.pending.push(PendingEntry { key: key.to_owned(), result: None });
        self.misses = crate::cache::inc_u64(self.misses);
        proof {
            lemma_pending_find(self.pending@, key@);
            let news = self.pending@;
            assert(news[news.len() - 1].key@ == key@);
            assert(pending_find(news, key@) is Some);
            let i2 = pending_find(news, key@)->0;
            assert(news[i2].result is None) by {
                if i2 < news.len() - 1 {
                    assert(news[i2].key@ != key@);
                }
            }
        }
        BeginOutcome::Leader
    }

    /// Publish the leader's result for `key`: the in-flight entry (if
    /// still present) now carries the result for followers to observe, a
    /// successful result is promoted into the completed cache when
    /// `use_cache` is set (evicting the oldest completed entry if full),
    /// and a failed result is counted.
    pub fn publish(&mut self, key: &str, result: Result<String, String>, use_cache: bool)
        requires
            old(self).wf(),
        ensures
            final(self).wf(),
            final(self).ttl_ms == old(self).ttl_ms,
            final(self).max_pending == old(self).max_pending,
            final(self).max_completed == old(self).max_completed,
            final(self).hits == old(self).hits,
            final(self).misses == old(self).misses,
            final(self).errors == if result is Err {
                crate::cache::spec_inc(old(self).errors)
            } else {
                old(self).errors
            },
            match pending_find(old(self).pending@, key@) {
                Some(i) => final(self).pending@ == old(self).pending@.update(
                    i,
                    PendingEntry { key: final(self).pending@[i].key, result: Some(result) },
                ) && final(self).pending@[i].key@ == key@,
                None => final(self).pending@ == old(self).pending@,
            },
            ({
                let promote = use_cache && result is Ok;
                if promote {
                    match completed_find(old(self).completed@, key@) {
                        Some(j) => final(self).completed@ == old(self).completed@.update(
                            j,
                            (final(self).completed@[j].0, result->Ok_0),
                        ) && final(self).completed@[j].0@ == key@,
                        None => {
                            if old(self).completed@.len() < old(self).max_completed {
                                final(self).completed@.drop_last() == old(self).completed@ && final(self).completed@.len() == old(self).completed@.len() + 1 && final(self).completed@.last().1 == result->Ok_0 && final(self).completed@.last().0@ == key@
                            } else {
                                final(self).completed@.drop_last() == old(
                                    self,
                                ).completed@.subrange(1, old(self).completed@.len() as int)
                                    && final(self).completed@.len() == old(
                                    self,
                                ).completed@.len() && final(self).completed@.last().0@ == key@
                                    && final(self).completed@.last().1 == result->Ok_0
                            }
                        },
                    }
                } else {
                    final(self).completed@ == old(self).completed@
                }
            }),
    {
        proof {
            lemma_pending_find(self.pending@, key@);
            lemma_completed_find(self.completed@, key@);
        }
        let is_err: bool = result.is_err();
        let pf = self.find_pending(key);
        let stored: Option<String> = match &result {
            Ok(v) => {
                if use_cache {
                    Some(v.clone())
                } else {
                    None
                }
            },
            Err(_) => None,
        };
        match pf {
            Some(i) => {
                let k = self.pending[i].key.clone();
                let ghost before = self.pending@;
                self.pending.set(i, PendingEntry { key: k, result: Some(result) });
                proof {
                    assert forall|a: int, b: int|
                        0 <= a < b < self.pending@.len() implies self.pending@[a].key@
                        != self.pending@[b].key@ by {
                        assert(before[a].key@ != before[b].key@);
                    }
                }
            },
            None => {},
        }
        match stored {
            Some(value) => {
                let cf = self.find_completed(key);
                match cf {
                    Some(j) => {
                        let k = self.completed[j].0.clone();
                        let ghost before = self.completed@;
                        self.completed.set(j, (k, value));
                        proof {
                            assert forall|a: int, b: int|
                                0 <= a < b < self.completed@.len() implies self.completed@[a].0@
                                != self.completed@[b].0@ by {
                                assert(before[a].0@ != before[b].0@);
                            }
                        }
                    },
                    None => {
                        if self.completed.len() >= self.max_completed {
                            self.completed.remove(0);
                            proof {
                                let olds = old(self).completed@;
                                assert forall|a: int, b: int|
                                    0 <= a < b < self.completed@.len() implies self.completed@[
                                a].0@ != self.completed@[b].0@ by {
                                    assert(self.completed@[a] == olds[a + 1] && self.completed@[b]
                                        == olds[b + 1]);
                                }
                            }
                        }
                        self.completed.push((key.to_owned(), value));
                    },
                }
            },
            None => {},
        }
        if is_err {
            self.errors = crate::cache::inc_u64(self.errors);
        }
    }

    /// Read the published result for `key`, if its in-flight entry has
    /// been resolved. Followers call this until it answers.
    pub fn poll_result(&self, key: &str) -> (r: Option<Result<String, String>>)
        ensures
            r == match pending_find(self.pending@, key@) {
                Some(i) => self.pending@[i].result,
                None => None::<Result<String, String>>,
            },
    {
        let pf = self.find_pending(key);
        proof {
            lemma_pending_find(self.pending@, key@);
        }
        match pf {
            Some(i) => {
                match &self.pending[i].result {
                    Some(res) => {
                        match res {
                            Ok(v) => Some(Ok(v.clone())),
                            Err(e) => Some(Err(e.clone())),
                        }
                    },
                    None => None,
                }
            },
            None => None,
        }
    }

    /// Drop every resolved in-flight entry; the unresolved ones — keys a
    /// leader is still executing — stay. Returns how many were dropped.
    ///
    /// This is the expiry sweep of the pending map: a resolved entry is
    /// kept only so that waiting followers can read the published result,
    /// and this call retires it. The completed map needs no sweep, since
    /// insertion already keeps it within its bound.
    pub fn cleanup_expired(&mut self) -> (removed: usize)
        requires
            old(self).wf(),
        ensures
            final(self).wf(),
            final(self).pending@ == old(self).pending@.filter(
                |e: PendingEntry| e.result is None,
            ),
            removed == old(self).pending@.len() - final(self).pending@.len(),
            final(self).completed@ == old(self).completed@,
            final(self).ttl_ms == old(self).ttl_ms,
            final(self).max_pending == old(self).max_pending,
            final(self).max_completed == old(self).max_completed,
            final(self).hits == old(self).hits && final(self).misses == old(self).misses && final(self).errors == old(self).errors,
    {
        let ghost olds = self.pending@;
        let ghost pred = |e: PendingEntry| e.result is None;
        let ghost n = olds.len() as int;
        let total: usize = self.pending.len();
        let mut i: usize = 0;
        let ghost mut j: int = 0;
        proof {
            reveal(Seq::filter);
            assert(olds.subrange(0, 0).filter(pred) =~= Seq::<PendingEntry>::empty());
            assert(olds.subrange(0, n) =~= olds);
        }
        while i < self.pending.len()
            invariant
                0 <= j <= n,
                n == olds.len(),
                i == olds.subrange(0, j).filter(pred).len(),
                self.pending@ == olds.subrange(0, j).filter(pred) + olds.subrange(j, n),
                pred == (|e: PendingEntry| e.result is None),
                self.completed@ == old(self).completed@,
                self.ttl_ms == old(self).ttl_ms,
                self.max_pending == old(self).max_pending,
                self.max_completed == old(self).max_completed,
                self.hits == old(self).hits && self.misses == old(self).misses && self.errors
                    == old(self).errors,
            decreases n - j,
        {
            proof {
                reveal(Seq::filter);
                assert(j < n);
                assert(self.pending@[i as int] == olds[j]);
                assert(olds.subrange(0, j + 1).drop_last() =~= olds.subrange(0, j));
                assert(olds.subrange(0, j + 1).last() == olds[j]);
            }
            if self.pending[i].result.is_none() {
                proof {
                    assert(olds.subrange(0, j + 1).filter(pred) == olds.subrange(0, j).filter(
                        pred,
                    ).push(olds[j]));
                    assert(olds.subrange(0, j + 1).filter(pred) + olds.subrange(j + 1, n)
                        =~= olds.subrange(0, j).filter(pred) + olds.subrange(j, n));
                    j = j + 1;
                }
                i = i + 1;
            } else {
                self.pending.remove(i);
                proof {
                    assert(olds.subrange(0, j + 1).filter(pred) == olds.subrange(0, j).filter(
                        pred,
                    ));
                    assert(self.pending@ =~= olds.subrange(0, j + 1).filter(pred) + olds.subrange(
                        j + 1,
                        n,
                    ));
                    j = j + 1;
                }
            }
        }
        proof {
            reveal(Seq::filter);
            assert(j == n) by {
                if j < n {
                    assert(self.pending@.len() > i);
                }
            }
            assert(self.pending@ =~= olds.filter(pred));
            lemma_pending_filter_distinct(olds, pred);
            olds.lemma_filter_len(pred);
        }
        let removed: usize = total - self.pending.len();
        removed
    }

    /// Drop every in-flight entry. Returns how many there were.
    pub fn clear_pending(&mut self) -> (count: usize)
        ensures
            old(self).wf() ==> final(self).wf(),
            count == old(self).pending@.len(),
            final(self).pending@ == Seq::<PendingEntry>::empty(),
            final(self).completed@ == old(self).completed@,
            final(self).ttl_ms == old(self).ttl_ms,
            final(self).max_pending == old(self).max_pending,
            final(self).max_completed == old(self).max_completed,
            final(self).hits == old(self).hits && final(self).misses == old(self).misses && final(self).errors == old(self).errors,
    {
        let count: usize = self.pending.len();
        self.pending = Vec::new();
        count
    }

    /// Drop every completed result. Returns how many there were.
    pub fn clear_completed(&mut self) -> (count: usize)
        ensures
            old(self).wf() ==> final(self).wf(),
            count == old(self).completed@.len(),
            final(self).completed@ == Seq::<(String, String)>::empty(),
            final(self).pending@ == old(self).pending@,
            final(self).ttl_ms == old(self).ttl_ms,
            final(self).max_pending == old(self).max_pending,
            final(self).max_completed == old(self).max_completed,
            final(self).hits == old(self).hits && final(self).misses == old(self).misses && final(self).errors == old(self).errors,
    {
        let count: usize = self.completed.len();
        self.completed = Vec::new();
        count
    }

    /// Drop both maps. Returns the total number of entries dropped.
    pub fn clear_all(&mut self) -> (count: usize)
        requires
            old(self).pending@.len() + old(self).completed@.len() <= usize::MAX,
        ensures
            old(self).wf() ==> final(self).wf(),
            count == old(self).pending@.len() + old(self).completed@.len(),
            final(self).pending@ == Seq::<PendingEntry>::empty(),
            final(self).completed@ == Seq::<(String, String)>::empty(),
            final(self).ttl_ms == old(self).ttl_ms,
            final(self).max_pending == old(self).max_pending,
            final(self).max_completed == old(self).max_completed,
            final(self).hits == old(self).hits && final(self).misses == old(self).misses && final(self).errors == old(self).errors,
    {
        let a: usize = self.clear_pending();
        let b: usize = self.clear_completed();
        a + b
    }

    /// A snapshot of the counters and current map sizes. `pending_count`
    /// counts requests still in flight — unresolved entries only, since a
    /// request is no longer pending once its result is captured.
    pub fn get_stats(&self) -> (r: DeduplicatorStats)
        ensures
            r == (DeduplicatorStats {
                hits: self.hits,
                misses: self.misses,
                errors: self.errors,
                pending_count: self.pending@.filter(
                    |e: PendingEntry| e.result is None,
                ).len() as usize,
                completed_count: self.completed@.len() as usize,
                ttl_ms: self.ttl_ms,
            }),
    {
        let ghost pred = |e: PendingEntry| e.result is None;
        let mut in_flight: usize = 0;
        let mut i: usize = 0;
        proof {
            reveal(Seq::filter);
            assert(self.pending@.subrange(0, 0).filter(pred) =~= Seq::<PendingEntry>::empty());
        }
        while i < self.pending.len()
            invariant
                i <= self.pending@.len(),
                pred == (|e: PendingEntry| e.result is None),
                in_flight == self.pending@.subrange(0, i as int).filter(pred).len(),
                in_flight <= i,
            decreases self.pending@.len() - i,
        {
            proof {
                reveal(Seq::filter);
                assert(self.pending@.subrange(0, i + 1).drop_last() =~= self.pending@.subrange(
                    0,
                    i as int,
                ));
                assert(self.pending@.subrange(0, i + 1).last() == self.pending@[i as int]);
            }
            if self.pending[i].result.is_none() {
                in_flight = in_flight + 1;
            }
            i = i + 1;
        }
        proof {
            assert(self.pending@.subrange(0, self.pending@.len() as int) =~= self.pending@);
        }
        DeduplicatorStats {
            hits: self.hits,
            misses: self.misses,
            errors: self.errors,
            pending_count: in_flight,
            completed_count: self.completed.len(),
            ttl_ms: self.ttl_ms,
        }
    }

    /// Reset the hit, miss and error counters to zero; the maps stay.
    pub fn reset_stats(&mut self)
        ensures
            final(self).hits == 0 && final(self).misses == 0 && final(self).errors == 0,
            final(self).pending@ == old(self).pending@,
            final(self).completed@ == old(self).completed@,
            final(self).ttl_ms == old(self).ttl_ms,
            final(self).max_pending == old(self).max_pending,
            final(self).max_completed == old(self).max_completed,
    {
        self.hits = 0;
        self.misses = 0;
        self.errors = 0;
    }
}

/// Filtering the pending map keeps its keys pairwise distinct.
proof fn lemma_pending_filter_distinct(s: Seq<PendingEntry>, p: spec_fn(PendingEntry) -> bool)
    ensures
        forall|x: PendingEntry| #[trigger] s.filter(p).contains(x) ==> s.contains(x),
        (forall|i: int, j: int| 0 <= i < j < s.len() ==> s[i].key@ != s[j].key@) ==> (forall|
            i: int,
            j: int,
        | 0 <= i < j < s.filter(p).len() ==> s.filter(p)[i].key@ != s.filter(p)[j].key@),
    decreases s.len(),
{
    reveal(Seq::filter);
    if s.len() == 0 {
    } else {
        let d = s.drop_last();
        lemma_pending_filter_distinct(d, p);
        assert forall|x: PendingEntry| #[trigger] s.filter(p).contains(x) implies s.contains(
            x,
        ) by {
            if d.filter(p).contains(x) {
                let j = choose|j: int| 0 <= j < d.len() && d[j] == x;
                assert(s[j] == x);
            } else {
                assert(x == s.last());
                assert(s[s.len() - 1] == x);
            }
        }
        if forall|i: int, j: int| 0 <= i < j < s.len() ==> s[i].key@ != s[j].key@ {
            assert(forall|i: int, j: int| 0 <= i < j < d.len() ==> d[i].key@ != d[j].key@) by {
                assert forall|i: int, j: int| 0 <= i < j < d.len() implies d[i].key@
                    != d[j].key@ by {
                    assert(d[i] == s[i] && d[j] == s[j]);
                }
            }
            let f = s.filter(p);
            let fd = d.filter(p);
            assert forall|i: int, j: int| 0 <= i < j < f.len() implies f[i].key@ != f[j].key@ by {
                if p(s.last()) && j == f.len() - 1 {
                    assert(f[j] == s.last());
                    assert(fd.contains(f[i]));
                    let a = choose|a: int| 0 <= a < d.len() && d[a] == f[i];
                    assert(s[a] == f[i]);
                    assert(s[a].key@ != s[s.len() - 1].key@);
                } else {
                    assert(f[i] == fd[i] && f[j] == fd[j]);
                }
            }
        }
    }
}

} // verus!
