//! The per-bucket credential cache with single-flight refresh semantics.
//!
//! The cache is the one piece of mutable shared state in the proxy.  Its
//! concurrency-critical decisions are captured here as a verified state
//! machine over per-bucket fetch states; the embedding application holds the
//! cache behind its runtime's synchronization, performs the actual
//! identity-provider exchange when told to, and parks waiters on a
//! notification primitive while a fetch is in flight.
//!
//! Per bucket the protocol is: `acquire` either hands out the cached token,
//! tells the caller to wait for the flight already in progress, or makes the
//! caller the owner of a new flight; the owner later reports the outcome
//! through `complete_fetch`.  Buckets never interfere with one another, and a
//! failure is never cached as a poison value.

use vstd::prelude::*;

use crate::strutil::str_eq;

verus! {

/// The fetch state of one bucket's cache entry.
#[derive(Clone, Debug)]
pub enum FetchState {
    /// A fetch for this bucket is in flight.
    Fetching,
    /// A bearer token is cached and handed out on every lookup.
    Ready(String),
    /// The last fetch failed; the next caller retries.
    Failed(String),
}

/// The mathematical value of a fetch state.  `Absent` stands for a bucket
/// the cache holds no entry for.
pub enum FetchStateV {
    Absent,
    Fetching,
    Ready(Seq<char>),
    Failed(Seq<char>),
}

impl View for FetchState {
    type V = FetchStateV;

    open spec fn view(&self) -> FetchStateV {
        match self {
            FetchState::Fetching => FetchStateV::Fetching,
            FetchState::Ready(t) => FetchStateV::Ready(t@),
            FetchState::Failed(e) => FetchStateV::Failed(e@),
        }
    }
}

/// What `acquire` tells its caller to do.
#[derive(Clone, Debug)]
pub enum CacheDecision {
    /// A token is cached: use it, no fetch is needed.
    UseToken(String),
    /// A fetch for this bucket is already in flight: wait for its outcome.
    AwaitFetch,
    /// The caller owns a new flight: invoke the fetch operation exactly once
    /// and report its outcome through `complete_fetch`.
    StartFetch,
}

/// The mathematical value of a cache decision.
pub enum CacheDecisionV {
    UseToken(Seq<char>),
    AwaitFetch,
    StartFetch,
}

impl View for CacheDecision {
    type V = CacheDecisionV;

    open spec fn view(&self) -> CacheDecisionV {
        match self {
            CacheDecision::UseToken(t) => CacheDecisionV::UseToken(t@),
            CacheDecision::AwaitFetch => CacheDecisionV::AwaitFetch,
            CacheDecision::StartFetch => CacheDecisionV::StartFetch,
        }
    }
}

/// The per-bucket transition taken by `acquire`: the decision handed to the
/// caller and the bucket's next state.
pub open spec fn step_acquire(st: FetchStateV) -> (CacheDecisionV, FetchStateV) {
    match st {
        FetchStateV::Ready(t) => (CacheDecisionV::UseToken(t), st),
        FetchStateV::Fetching => (CacheDecisionV::AwaitFetch, st),
        FetchStateV::Absent => (CacheDecisionV::StartFetch, FetchStateV::Fetching),
        FetchStateV::Failed(_) => (CacheDecisionV::StartFetch, FetchStateV::Fetching),
    }
}

/// The per-bucket transition taken by `complete_fetch`: the outcome of the
/// flight settles the entry; a completion report for a bucket with no flight
/// in progress changes nothing.
pub open spec fn step_complete(
    st: FetchStateV,
    outcome: Result<Seq<char>, Seq<char>>,
) -> FetchStateV {
    if st is Fetching {
        match outcome {
            Ok(t) => FetchStateV::Ready(t),
            Err(e) => FetchStateV::Failed(e),
        }
    } else {
        st
    }
}

/// The view of a fetch outcome.
pub open spec fn outcome_view(r: Result<String, String>) -> Result<Seq<char>, Seq<char>> {
    match r {
        Ok(t) => Ok(t@),
        Err(e) => Err(e@),
    }
}

/// Last-write-wins state lookup over the cache's entry list.
pub open spec fn cache_lookup(s: Seq<(String, FetchState)>, k: Seq<char>) -> FetchStateV
    decreases s.len(),
{
    if s.len() == 0 {
        FetchStateV::Absent
    } else if s.last().0@ == k {
        s.last().1@
    } else {
        cache_lookup(s.drop_last(), k)
    }
}

proof fn lemma_cache_lookup_found(s: Seq<(String, FetchState)>, i: int, k: Seq<char>)
    requires
        0 <= i < s.len(),
        s[i].0@ == k,
        forall|j: int| i < j < s.len() ==> s[j].0@ != k,
    ensures
        cache_lookup(s, k) == s[i].1@,
    decreases s.len(),
{
    if i == s.len() - 1 {
    } else {
        assert(s.drop_last() =~= s.subrange(0, s.len() - 1));
        lemma_cache_lookup_found(s.drop_last(), i, k);
    }
}

proof fn lemma_cache_lookup_absent(s: Seq<(String, FetchState)>, k: Seq<char>)
    requires
        forall|j: int| 0 <= j < s.len() ==> s[j].0@ != k,
    ensures
        cache_lookup(s, k) == FetchStateV::Absent,
    decreases s.len(),
{
    if s.len() > 0 {
        lemma_cache_lookup_absent(s.drop_last(), k);
    }
}

proof fn lemma_cache_lookup_push(s: Seq<(String, FetchState)>, e: (String, FetchState), k: Seq<char>)
    ensures
        cache_lookup(s.push(e), k) == (if e.0@ == k {
            e.1@
        } else {
            cache_lookup(s, k)
        }),
{
    assert(s.push(e).drop_last() =~= s);
    assert(s.push(e).last() == e);
}

/// Overwriting the last entry for a bucket with a new state for the same
/// bucket changes that bucket's lookup and no other.
proof fn lemma_cache_lookup_update_last(
    s: Seq<(String, FetchState)>,
    i: int,
    e: (String, FetchState),
    k: Seq<char>,
)
    requires
        0 <= i < s.len(),
        s[i].0@ == e.0@,
        forall|j: int| i < j < s.len() ==> s[j].0@ != e.0@,
    ensures
        cache_lookup(s.update(i, e), k) == (if k == e.0@ {
            e.1@
        } else {
            cache_lookup(s, k)
        }),
    decreases s.len(),
{
    let t = s.update(i, e);
    if i == s.len() - 1 {
        assert(t.last() == e);
        assert(t.drop_last() =~= s.drop_last());
    } else {
        assert(t.last() == s.last());
        assert(t.drop_last() =~= s.drop_last().update(i, e));
        lemma_cache_lookup_update_last(s.drop_last(), i, e, k);
    }
}

/// The credential cache.  One entry list, scanned last-write-wins; the entry
/// for a bucket holds that bucket's fetch state.
pub struct SecretsCache {
    entries: Vec<(String, FetchState)>,
}

impl SecretsCache {
    /// The fetch state the cache holds for bucket `k`.
    pub closed spec fn state_of(self, k: Seq<char>) -> FetchStateV {
        cache_lookup(self.entries@, k)
    }

    /// A fresh cache holds no entry for any bucket.
    pub fn new() -> (c: SecretsCache)
        ensures
            forall|k: Seq<char>| c.state_of(k) == FetchStateV::Absent,
    {
        let c = SecretsCache { entries: Vec::new() };
        proof {
            assert forall|k: Seq<char>| c.state_of(k) == FetchStateV::Absent by {
                lemma_cache_lookup_absent(c.entries@, k);
            }
        }
        c
    }

    /// Find the index of the authoritative (last) entry for `bucket`.
    fn find_last(&self, bucket: &str) -> (r: Option<usize>)
        ensures
            match r {
                Some(i) => i < self.entries@.len() && self.entries@[i as int].0@ == bucket@
                    && forall|j: int|
                        i < j < self.entries@.len() ==> self.entries@[j].0@ != bucket@,
                None => forall|j: int|
                    0 <= j < self.entries@.len() ==> self.entries@[j].0@ != bucket@,
            },
    {
        let n: usize = self.entries.len();
        let mut i: usize = n;
        while i > 0
            invariant
                i <= n,
                n == self.entries@.len(),
                forall|j: int| i <= j < n ==> self.entries@[j].0@ != bucket@,
            decreases i,
        {
            i = i - 1;
            if str_eq(self.entries[i].0.as_str(), bucket) {
                return Some(i);
            }
        }
        None
    }

    /// Look the bucket's entry up and, when neither a token is cached nor a
    /// fetch is in flight, claim the flight: the `StartFetch` caller is the
    /// one caller that invokes the fetch operation.
    pub fn acquire(&mut self, bucket: &str) -> (d: CacheDecision)
        ensures
            d@ == step_acquire(old(self).state_of(bucket@)).0,
            final(self).state_of(bucket@) == step_acquire(old(self).state_of(bucket@)).1,
            forall|k: Seq<char>| k != bucket@ ==> final(self).state_of(k) == old(self).state_of(k),
    {
        match self.find_last(bucket) {
            Some(i) => {
                proof {
                    lemma_cache_lookup_found(self.entries@, i as int, bucket@);
                }
                let claim_flight = match &self.entries[i].1 {
                    FetchState::Ready(t) => {
                        return CacheDecision::UseToken(t.clone());
                    },
                    FetchState::Fetching => false,
                    FetchState::Failed(_) => true,
                };
                if claim_flight {
                    let ghost pre = self.entries@;
                    let new_key = String::from_str(bucket);
                    let ghost new_pair = (new_key, FetchState::Fetching);
                    self.entries[i] = (new_key, FetchState::Fetching);
                    proof {
                        assert(self.entries@ =~= pre.update(i as int, new_pair));
                        assert forall|k: Seq<char>|
                            cache_lookup(self.entries@, k) == (if k == bucket@ {
                                FetchStateV::Fetching
                            } else {
                                cache_lookup(pre, k)
                            }) by {
                            lemma_cache_lookup_update_last(pre, i as int, new_pair, k);
                        }
                    }
                    CacheDecision::StartFetch
                } else {
                    CacheDecision::AwaitFetch
                }
            },
            None => {
                proof {
                    lemma_cache_lookup_absent(self.entries@, bucket@);
                }
                let ghost pre = self.entries@;
                let new_key = String::from_str(bucket);
                let ghost new_pair = (new_key, FetchState::Fetching);
                self.entries.push((new_key, FetchState::Fetching));
                proof {
                    assert(self.entries@ =~= pre.push(new_pair));
                    assert forall|k: Seq<char>|
                        cache_lookup(self.entries@, k) == (if k == bucket@ {
                            FetchStateV::Fetching
                        } else {
                            cache_lookup(pre, k)
                        }) by {
                        lemma_cache_lookup_push(pre, new_pair, k);
                    }
                }
                CacheDecision::StartFetch
            },
        }
    }

    /// Report the outcome of the flight for `bucket`.  On success the token
    /// is cached and handed to every waiter and every later caller; on
    /// failure the entry is marked failed, which the next caller retries.
    /// A report for a bucket with no flight in progress changes nothing.
    pub fn complete_fetch(&mut self, bucket: &str, outcome: &Result<String, String>)
        ensures
            final(self).state_of(bucket@) == step_complete(
                old(self).state_of(bucket@),
                outcome_view(*outcome),
            ),
            forall|k: Seq<char>| k != bucket@ ==> final(self).state_of(k) == old(self).state_of(k),
    {
        match self.find_last(bucket) {
            Some(i) => {
                proof {
                    lemma_cache_lookup_found(self.entries@, i as int, bucket@);
                }
                let in_flight = match &self.entries[i].1 {
                    FetchState::Fetching => true,
                    _ => false,
                };
                if in_flight {
                    let new_state = match outcome {
                        Ok(t) => FetchState::Ready(t.clone()),
                        Err(e) => FetchState::Failed(e.clone()),
                    };
                    let ghost pre = self.entries@;
                    let new_key = String::from_str(bucket);
                    let ghost new_pair = (new_key, new_state);
                    self.entries[i] = (new_key, new_state);
                    proof {
                        assert(self.entries@ =~= pre.update(i as int, new_pair));
                        assert forall|k: Seq<char>|
                            cache_lookup(self.entries@, k) == (if k == bucket@ {
                                new_pair.1@
                            } else {
                                cache_lookup(pre, k)
                            }) by {
                            lemma_cache_lookup_update_last(pre, i as int, new_pair, k);
                        }
                    }
                }
            },
            None => {
                proof {
                    lemma_cache_lookup_absent(self.entries@, bucket@);
                }
            },
        }
    }
}

/// The number of fetches started over `n` back-to-back acquire steps for one
/// bucket, starting from state `st`.
pub open spec fn acquires_started(st: FetchStateV, n: nat) -> nat
    decreases n,
{
    if n == 0 {
        0
    } else {
        (if step_acquire(st).0 is StartFetch {
            1nat
        } else {
            0nat
        }) + acquires_started(step_acquire(st).1, (n - 1) as nat)
    }
}

/// Once a bucket is fetching or has a token, no acquire run starts a fetch.
pub proof fn lemma_no_starts_when_settled(st: FetchStateV, n: nat)
    requires
        st is Fetching || st is Ready,
    ensures
        acquires_started(st, n) == 0,
    decreases n,
{
    if n > 0 {
        lemma_no_starts_when_settled(step_acquire(st).1, (n - 1) as nat)
    }
}

/// Single-flight: of any number of acquire steps for one bucket with no
/// completion in between, at most one starts a fetch; every other caller is
/// handed the cached token or told to wait.
pub proof fn lemma_single_flight(st: FetchStateV, n: nat)
    ensures
        acquires_started(st, n) <= 1,
    decreases n,
{
    if n > 0 {
        match st {
            FetchStateV::Fetching => lemma_no_starts_when_settled(st, n),
            FetchStateV::Ready(_) => lemma_no_starts_when_settled(st, n),
            FetchStateV::Absent => lemma_no_starts_when_settled(FetchStateV::Fetching, (n - 1) as nat),
            FetchStateV::Failed(_) => lemma_no_starts_when_settled(
                FetchStateV::Fetching,
                (n - 1) as nat,
            ),
        }
    }
}

/// While a fetch is in flight, a further acquire for the same bucket joins
/// it: the caller is told to wait and the entry is left untouched.
pub proof fn lemma_waiters_join_flight(st: FetchStateV)
    requires
        st is Fetching,
    ensures
        step_acquire(st).0 is AwaitFetch,
        step_acquire(st).1 == st,
{
}

/// All waiters observe the same outcome: once a flight completes with a
/// token, every later acquire for that bucket is handed exactly that token,
/// and no step moves the entry away from it.
pub proof fn lemma_same_outcome(t: Seq<char>, outcome: Result<Seq<char>, Seq<char>>)
    ensures
        step_complete(FetchStateV::Fetching, Ok(t)) == FetchStateV::Ready(t),
        step_acquire(FetchStateV::Ready(t)).0 == CacheDecisionV::UseToken(t),
        step_acquire(FetchStateV::Ready(t)).1 == FetchStateV::Ready(t),
        step_complete(FetchStateV::Ready(t), outcome) == FetchStateV::Ready(t),
{
}

/// A failure is not cached as a poison value: after a failed flight the next
/// acquire for that bucket starts a fresh fetch.
pub proof fn lemma_no_poison(e: Seq<char>)
    ensures
        step_complete(FetchStateV::Fetching, Err(e)) == FetchStateV::Failed(e),
        step_acquire(FetchStateV::Failed(e)).0 is StartFetch,
{
}

} // verus!
