//! The store abstraction: a capability contract over a key/value backend.
//!
//! The engine reads a bucket's persisted theoretical arrival time together
//! with the backend's own notion of "now", and writes a new TAT with an
//! expiry only through a conditional write keyed on the previously observed
//! value. That conditional write is the seam that keeps concurrent
//! evaluations from double-admitting a bucket.

use vstd::prelude::*;

use crate::error::StoreError;
use crate::units::{MAX_INSTANT, MAX_TAT, MAX_TTL};

verus! {

/// The stored nanosecond values of an optional TAT, as mathematical
/// integers.
pub open spec fn opt_nanos(o: Option<i64>) -> Option<int> {
    match o {
        Some(t) => Some(t as int),
        None => None,
    }
}

/// A key/value backend holding one TAT per bucket, with an authoritative
/// clock and a conditional-write primitive.
///
/// The model is three observations: the backend clock `now_ns`, the live
/// TAT per key `tat_of` (`None` once a bucket's entry has expired or was
/// never written), and `infallible`, which holds for backends that cannot
/// fail an operation (such as the in-process store).
pub trait Store: Sized {
    /// Internal well-formedness of the store value.
    spec fn inv(&self) -> bool;

    /// The backend's clock, in nanoseconds.
    spec fn now_ns(&self) -> int;

    /// The live TAT persisted for `key`, if any.
    spec fn tat_of(&self, key: Seq<char>) -> Option<int>;

    /// The expiry horizon of the entry held for `key`, if one is held at
    /// all (an implementation may drop an entry any time after this
    /// instant has passed).
    spec fn expiry_of(&self, key: Seq<char>) -> Option<int>;

    /// Whether every operation on this store is guaranteed to return
    /// `Ok`.
    spec fn infallible(&self) -> bool;

    /// Reads the bucket's persisted TAT (or its absence) together with
    /// the backend's current time.
    fn get_with_time(&mut self, key: &str) -> (r: Result<(Option<i64>, i64), StoreError>)
        requires
            old(self).inv(),
        ensures
            final(self).inv(),
            final(self).infallible() == old(self).infallible(),
            final(self).now_ns() == old(self).now_ns(),
            forall|k: Seq<char>| #![trigger final(self).tat_of(k)]
                final(self).tat_of(k) == old(self).tat_of(k),
            forall|k: Seq<char>| #![trigger final(self).expiry_of(k)]
                final(self).expiry_of(k) == old(self).expiry_of(k),
            old(self).infallible() ==> r is Ok,
            r matches Ok(p) ==> {
                &&& p.1 as int == old(self).now_ns()
                &&& 0 <= p.1 <= MAX_INSTANT
                &&& opt_nanos(p.0) == old(self).tat_of(key@)
                &&& (p.0 matches Some(t) ==> 0 <= t <= MAX_TAT)
            },
    ;

    /// Writes `new_tat` for `key` with a time-to-live of `ttl`
    /// nanoseconds, provided the bucket still holds exactly `expected`
    /// (`None` standing for absent-or-expired). Atomic with respect to
    /// the value observed by `get_with_time`: a concurrent change makes
    /// the write return `Ok(false)` rather than overwrite.
    fn compare_and_swap_with_ttl(
        &mut self,
        key: &str,
        expected: Option<i64>,
        new_tat: i64,
        ttl: i64,
    ) -> (r: Result<bool, StoreError>)
        requires
            old(self).inv(),
            0 <= new_tat <= MAX_TAT,
            1 <= ttl <= MAX_TTL,
        ensures
            final(self).inv(),
            final(self).infallible() == old(self).infallible(),
            final(self).now_ns() == old(self).now_ns(),
            forall|k: Seq<char>| #![trigger final(self).tat_of(k)]
                k != key@ ==> final(self).tat_of(k) == old(self).tat_of(k),
            forall|k: Seq<char>| #![trigger final(self).expiry_of(k)]
                k != key@ ==> final(self).expiry_of(k) == old(self).expiry_of(k),
            r matches Ok(true) ==> {
                &&& opt_nanos(expected) == old(self).tat_of(key@)
                &&& final(self).tat_of(key@) == Some(new_tat as int)
                &&& final(self).expiry_of(key@) == Some(old(self).now_ns() + ttl)
            },
            !(r matches Ok(true)) ==> final(self).tat_of(key@) == old(self).tat_of(key@)
                && final(self).expiry_of(key@) == old(self).expiry_of(key@),
            old(self).infallible() ==> (r matches Ok(b) && b == (opt_nanos(expected) == old(
                self,
            ).tat_of(key@))),
    ;
}

/// One bucket persisted by the in-process store.
struct StoredBucket {
    key: String,
    tat: i64,
    expires_at: i64,
}

/// The first bucket in `s` stored under `k`, if any.
spec fn find_slot(s: Seq<StoredBucket>, k: Seq<char>) -> Option<(int, int)>
    decreases s.len(),
{
    if s.len() == 0 {
        None
    } else if s[0].key@ == k {
        Some((s[0].tat as int, s[0].expires_at as int))
    } else {
        find_slot(s.drop_first(), k)
    }
}

proof fn lemma_find_slot_at(s: Seq<StoredBucket>, i: int)
    requires
        0 <= i < s.len(),
        forall|j: int| 0 <= j < i ==> s[j].key@ != s[i].key@,
    ensures
        find_slot(s, s[i].key@) == Some((s[i].tat as int, s[i].expires_at as int)),
    decreases s.len(),
{
    if i > 0 {
        lemma_find_slot_at(s.drop_first(), i - 1);
    }
}

proof fn lemma_find_slot_none(s: Seq<StoredBucket>, k: Seq<char>)
    requires
        forall|j: int| 0 <= j < s.len() ==> s[j].key@ != k,
    ensures
        find_slot(s, k) is None,
    decreases s.len(),
{
    if s.len() > 0 {
        lemma_find_slot_none(s.drop_first(), k);
    }
}

proof fn lemma_find_slot_update(s: Seq<StoredBucket>, i: int, b: StoredBucket, k: Seq<char>)
    requires
        0 <= i < s.len(),
        b.key@ == s[i].key@,
        forall|j: int| 0 <= j < i ==> s[j].key@ != s[i].key@,
    ensures
        find_slot(s.update(i, b), k) == if k == b.key@ {
            Some((b.tat as int, b.expires_at as int))
        } else {
            find_slot(s, k)
        },
    decreases s.len(),
{
    if i == 0 {
        assert(s.update(i, b)[0] == b);
        if k != b.key@ {
            assert(s.update(i, b).drop_first() =~= s.drop_first());
        }
    } else {
        assert(s.update(i, b)[0] == s[0]);
        assert(s.update(i, b).drop_first() =~= s.drop_first().update(i - 1, b));
        lemma_find_slot_update(s.drop_first(), i - 1, b, k);
    }
}

proof fn lemma_find_slot_push(s: Seq<StoredBucket>, b: StoredBucket, k: Seq<char>)
    requires
        forall|j: int| 0 <= j < s.len() ==> s[j].key@ != b.key@,
    ensures
        find_slot(s.push(b), k) == if k == b.key@ {
            Some((b.tat as int, b.expires_at as int))
        } else {
            find_slot(s, k)
        },
    decreases s.len(),
{
    if s.len() == 0 {
        assert(s.push(b)[0] == b);
        if k != b.key@ {
            assert(s.push(b).drop_first().len() == 0);
            assert(find_slot(s.push(b).drop_first(), k) is None);
        }
    } else {
        assert(s.push(b)[0] == s[0]);
        assert(s.push(b).drop_first() =~= s.drop_first().push(b));
        lemma_find_slot_push(s.drop_first(), b, k);
    }
}

/// The in-process store: a map guarded by exclusive access, for
/// single-process deployments and tests. Its clock is explicit and only
/// ever moves forward.
pub struct MemoryStore {
    entries: Vec<StoredBucket>,
    now: i64,
}

impl MemoryStore {
    /// The raw persisted pair `(tat, expires_at)` under `key`, expired or
    /// not.
    pub closed spec fn entry_of(&self, key: Seq<char>) -> Option<(int, int)> {
        find_slot(self.entries@, key)
    }

    /// An empty store whose clock reads `now`.
    pub fn new(now: i64) -> (s: MemoryStore)
        requires
            0 <= now <= MAX_INSTANT,
        ensures
            s.inv(),
            s.infallible(),
            s.now_ns() == now as int,
            forall|k: Seq<char>| #![trigger s.tat_of(k)] s.tat_of(k) is None,
    {
        let s = MemoryStore { entries: Vec::new(), now };
        proof {
            assert forall|k: Seq<char>| #[trigger] s.tat_of(k) is None by {
                lemma_find_slot_none(s.entries@, k);
            }
        }
        s
    }

    /// Moves the clock forward to `t`. Entries are untouched; buckets
    /// whose expiry has passed become logically absent.
    pub fn set_now(&mut self, t: i64)
        requires
            old(self).inv(),
            old(self).now_ns() <= t as int,
            t <= MAX_INSTANT,
        ensures
            final(self).inv(),
            final(self).infallible(),
            final(self).now_ns() == t as int,
            forall|k: Seq<char>| #![trigger final(self).entry_of(k)]
                final(self).entry_of(k) == old(self).entry_of(k),
    {
        self.now = t;
    }

    /// Looks `key` up, returning the index of its slot together with the
    /// guarantee that no earlier slot holds it.
    fn find_index(&self, key: &String) -> (r: Option<usize>)
        ensures
            match r {
                Some(i) => {
                    &&& i < self.entries@.len()
                    &&& self.entries@[i as int].key@ == key@
                    &&& forall|j: int| 0 <= j < i ==> self.entries@[j].key@ != key@
                },
                None => forall|j: int|
                    0 <= j < self.entries@.len() ==> self.entries@[j].key@ != key@,
            },
    {
        let n = self.entries.len();
        let mut i: usize = 0;
        while i < n
            invariant
                i <= n,
                n == self.entries@.len(),
                forall|j: int| 0 <= j < i ==> self.entries@[j].key@ != key@,
            decreases n - i,
        {
            if self.entries[i].key == *key {
                return Some(i);
            }
            i += 1;
        }
        None
    }
}

impl Store for MemoryStore {
    closed spec fn inv(&self) -> bool {
        &&& 0 <= self.now <= MAX_INSTANT
        &&& forall|i: int|
            0 <= i < self.entries@.len() ==> 0 <= #[trigger] self.entries@[i].tat <= MAX_TAT
    }

    closed spec fn now_ns(&self) -> int {
        self.now as int
    }

    closed spec fn tat_of(&self, key: Seq<char>) -> Option<int> {
        match find_slot(self.entries@, key) {
            Some(p) => if p.1 > self.now as int {
                Some(p.0)
            } else {
                None
            },
            None => None,
        }
    }

    closed spec fn expiry_of(&self, key: Seq<char>) -> Option<int> {
        match find_slot(self.entries@, key) {
            Some(p) => Some(p.1),
            None => None,
        }
    }

    closed spec fn infallible(&self) -> bool {
        true
    }

    fn get_with_time(&mut self, key: &str) -> (r: Result<(Option<i64>, i64), StoreError>) {
        let owned = key.to_owned();
        let found = self.find_index(&owned);
        match found {
            Some(i) => {
                proof {
                    lemma_find_slot_at(self.entries@, i as int);
                }
                let tat = self.entries[i].tat;
                let expires_at = self.entries[i].expires_at;
                if expires_at > self.now {
                    Ok((Some(tat), self.now))
                } else {
                    Ok((None, self.now))
                }
            },
            None => {
                proof {
                    lemma_find_slot_none(self.entries@, key@);
                }
                Ok((None, self.now))
            },
        }
    }

    fn compare_and_swap_with_ttl(
        &mut self,
        key: &str,
        expected: Option<i64>,
        new_tat: i64,
        ttl: i64,
    ) -> (r: Result<bool, StoreError>) {
        let owned = key.to_owned();
        let found = self.find_index(&owned);
        let fresh = StoredBucket { key: key.to_owned(), tat: new_tat, expires_at: self.now + ttl };
        match found {
            Some(i) => {
                proof {
                    lemma_find_slot_at(self.entries@, i as int);
                }
                let live = self.entries[i].expires_at > self.now;
                let matched = if live {
                    match expected {
                        Some(e) => e == self.entries[i].tat,
                        None => false,
                    }
                } else {
                    expected.is_none()
                };
                if !matched {
                    return Ok(false);
                }
                let ghost before = self.entries@;
                let slot = &mut self.entries[i];
                *slot = fresh;
                proof {
                    assert(self.entries@ =~= before.update(i as int, self.entries@[i as int]));
                    assert forall|k: Seq<char>| #[trigger] find_slot(self.entries@, k) == (if k
                        == key@ {
                        Some((new_tat as int, (self.now + ttl) as int))
                    } else {
                        find_slot(before, k)
                    }) by {
                        lemma_find_slot_update(before, i as int, self.entries@[i as int], k);
                    }
                }
                Ok(true)
            },
            None => {
                proof {
                    lemma_find_slot_none(self.entries@, key@);
                }
                match expected {
                    Some(_) => Ok(false),
                    None => {
                        let ghost before = self.entries@;
                        self.entries.push(fresh);
                        proof {
                            assert forall|k: Seq<char>| #[trigger] find_slot(self.entries@, k)
                                == (if k == key@ {
                                Some((new_tat as int, (self.now + ttl) as int))
                            } else {
                                find_slot(before, k)
                            }) by {
                                lemma_find_slot_push(before, self.entries@.last(), k);
                            }
                        }
                        Ok(true)
                    },
                }
            },
        }
    }
}

} // verus!
