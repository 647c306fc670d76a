//! One lock for each cache directory, as long as somebody holds it.
//!
//! Two callers that work on one directory share a lock and wait for each other;
//! callers on different directories do not. A lock that nobody holds is
//! forgotten.
use crate::text::str_eq;
use vstd::prelude::*;
use vstd::string::*;

verus! {

/// A lock: whose it is, its number, and how many hold it.
pub struct LockEntry {
    pub key: String,
    pub lock: u64,
    pub holders: u64,
}

/// The locks, by key.
pub struct KeyedLocks {
    pub entries: Vec<LockEntry>,
    /// The number of the next lock.
    pub next: u64,
}

/// The lock of a key among the first `n` entries and how many hold it, where
/// anybody does.
pub open spec fn held(entries: Seq<LockEntry>, key: Seq<char>, n: int) -> Option<(u64, u64)>
    decreases n,
{
    if n <= 0 || n > entries.len() {
        None
    } else if entries[n - 1].key@ == key && entries[n - 1].holders > 0 {
        Some((entries[n - 1].lock, entries[n - 1].holders))
    } else {
        held(entries, key, n - 1)
    }
}

/// The lock of a key and how many hold it, where anybody does.
pub open spec fn held_lock(locks: KeyedLocks, key: Seq<char>) -> Option<(u64, u64)> {
    held(locks.entries@, key, locks.entries@.len() as int)
}

/// Whether every entry is of its own key and its own lock, made before `next`.
pub open spec fn well_kept(entries: Seq<LockEntry>, next: u64) -> bool {
    &&& forall|i: int, j: int|
        0 <= i < j < entries.len() ==> (#[trigger] entries[i]).key@ != (#[trigger] entries[j]).key@
            && entries[i].lock != entries[j].lock
    &&& forall|i: int| 0 <= i < entries.len() ==> (#[trigger] entries[i]).lock < next
}

/// What is held of a key whose entry is changed.
proof fn lemma_update(
    entries: Seq<LockEntry>,
    changed: Seq<LockEntry>,
    at: int,
    key: Seq<char>,
    n: int,
)
    requires
        0 <= at < entries.len(),
        0 <= n <= entries.len(),
        changed.len() == entries.len(),
        changed[at].key@ == entries[at].key@,
        forall|i: int, j: int|
            0 <= i < j < entries.len() ==> (#[trigger] entries[i]).key@
                != (#[trigger] entries[j]).key@,
        forall|i: int| 0 <= i < entries.len() && i != at ==> #[trigger] changed[i] == entries[i],
    ensures
        held(changed, key, n) == if key == entries[at].key@ && n > at {
            if changed[at].holders > 0 {
                Some((changed[at].lock, changed[at].holders))
            } else {
                None
            }
        } else {
            held(entries, key, n)
        },
    decreases n,
{
    if n > 0 {
        lemma_update(entries, changed, at, key, n - 1);
        if n - 1 == at && key == entries[at].key@ {
            lemma_earlier_keys(changed, at, at);
        } else if n - 1 > at && key == entries[at].key@ {
            assert(entries[at].key@ != entries[n - 1].key@);
            assert(changed[n - 1] == entries[n - 1]);
        }
    }
}

/// A key has no entry before its own.
proof fn lemma_earlier_keys(entries: Seq<LockEntry>, at: int, n: int)
    requires
        0 <= n <= at < entries.len(),
        forall|i: int| 0 <= i < at ==> (#[trigger] entries[i]).key@ != entries[at].key@,
    ensures
        held(entries, entries[at].key@, n) is None,
    decreases n,
{
    if n > 0 {
        lemma_earlier_keys(entries, at, n - 1);
    }
}

/// What is held has an entry.
proof fn lemma_held(entries: Seq<LockEntry>, key: Seq<char>, n: int) -> (at: int)
    requires
        held(entries, key, n) is Some,
    ensures
        0 <= at < n <= entries.len(),
        entries[at].key@ == key,
        entries[at].holders > 0,
        held(entries, key, n) == Some((entries[at].lock, entries[at].holders)),
    decreases n,
{
    if entries[n - 1].key@ == key && entries[n - 1].holders > 0 {
        n - 1
    } else {
        lemma_held(entries, key, n - 1)
    }
}

/// What is held of entries that one more is put behind.
proof fn lemma_push(entries: Seq<LockEntry>, more: Seq<LockEntry>, key: Seq<char>, n: int)
    requires
        0 <= n <= entries.len() <= more.len(),
        forall|i: int| 0 <= i < entries.len() ==> #[trigger] more[i] == entries[i],
    ensures
        held(more, key, n) == held(entries, key, n),
    decreases n,
{
    if n > 0 {
        lemma_push(entries, more, key, n - 1);
    }
}

impl KeyedLocks {
    pub open spec fn valid(self) -> bool {
        well_kept(self.entries@, self.next)
    }

    pub fn new() -> (r: Self)
        ensures
            r.valid(),
            r.next == 0,
            forall|key: Seq<char>| #[trigger] held_lock(r, key) is None,
    {
        KeyedLocks { entries: Vec::new(), next: 0 }
    }

    /// Forgets the locks that nobody holds.
    fn forget_unheld(&mut self)
        requires
            old(self).valid(),
        ensures
            final(self).valid(),
            final(self).next == old(self).next,
            forall|k: int|
                0 <= k < final(self).entries@.len() ==> (#[trigger] final(self).entries@[k]).holders
                    > 0,
            forall|key: Seq<char>| #[trigger]
                held_lock(*final(self), key) == held_lock(*old(self), key),
    {
        let mut kept: Vec<LockEntry> = Vec::new();
        let mut i: usize = 0;
        while i < self.entries.len()
            invariant
                i <= self.entries@.len(),
                *self == *old(self),
                well_kept(self.entries@, self.next),
                well_kept(kept@, self.next),
                forall|k: int| 0 <= k < kept@.len() ==> (#[trigger] kept@[k]).holders > 0,
                forall|k: int|
                    0 <= k < kept@.len() ==> exists|j: int|
                        0 <= j < i && (#[trigger] self.entries@[j]).key@ == (#[trigger] kept@[k]).key@
                            && self.entries@[j].lock == kept@[k].lock,
                forall|key: Seq<char>| #[trigger]
                    held(kept@, key, kept@.len() as int) == held(self.entries@, key, i as int),
            decreases self.entries.len() - i,
        {
            let entry = &self.entries[i];
            let ghost before = kept@;
            if entry.holders > 0 {
                kept.push(
                    LockEntry { key: entry.key.clone(), lock: entry.lock, holders: entry.holders },
                );
                proof {
                    assert(self.entries@[i as int].key@ == kept@[kept@.len() - 1].key@);
                    assert forall|key: Seq<char>| #[trigger]
                        held(kept@, key, kept@.len() as int) == held(
                            self.entries@,
                            key,
                            i + 1,
                        ) by {
                        lemma_push(before, kept@, key, before.len() as int);
                        assert(held(before, key, before.len() as int) == held(
                            self.entries@,
                            key,
                            i as int,
                        ));
                    }
                }
            } else {
                proof {
                    assert forall|key: Seq<char>| #[trigger]
                        held(kept@, key, kept@.len() as int) == held(
                            self.entries@,
                            key,
                            i + 1,
                        ) by {
                        assert(held(before, key, before.len() as int) == held(
                            self.entries@,
                            key,
                            i as int,
                        ));
                    }
                }
            }
            i += 1;
        }
        self.entries = kept;
    }

    /// The lock of a key, held once more: the one that others hold already, or a
    /// new one.
    pub fn lock_for(&mut self, key: &str) -> (r: u64)
        requires
            old(self).valid(),
            old(self).next < u64::MAX,
            held_lock(*old(self), key@) matches Some(entry) ==> entry.1 < u64::MAX,
        ensures
            final(self).valid(),
            match held_lock(*old(self), key@) {
                Some(entry) => r == entry.0 && held_lock(*final(self), key@) == Some(
                    (entry.0, (entry.1 + 1) as u64),
                ) && final(self).next == old(self).next,
                None => r == old(self).next && held_lock(*final(self), key@) == Some((r, 1u64))
                    && final(self).next == old(self).next + 1,
            },
            forall|other: Seq<char>|
                other != key@ ==> #[trigger] held_lock(*final(self), other) == held_lock(
                    *old(self),
                    other,
                ),
    {
        self.forget_unheld();
        let ghost cleaned = *self;
        proof {
            assert(held_lock(cleaned, key@) == held_lock(*old(self), key@));
        }
        let mut i: usize = 0;
        while i < self.entries.len()
            invariant
                i <= self.entries@.len(),
                *self == cleaned,
                self.valid(),
                self.next < u64::MAX,
                held_lock(cleaned, key@) matches Some(entry) ==> entry.1 < u64::MAX,
                held_lock(cleaned, key@) == held_lock(*old(self), key@),
                cleaned.next == old(self).next,
                forall|other: Seq<char>| #[trigger]
                    held_lock(cleaned, other) == held_lock(*old(self), other),
                forall|k: int|
                    0 <= k < self.entries@.len() ==> (#[trigger] self.entries@[k]).holders > 0,
                forall|k: int| 0 <= k < i ==> (#[trigger] self.entries@[k]).key@ != key@,
            decreases self.entries.len() - i,
        {
            if str_eq(self.entries[i].key.as_str(), key) {
                let ghost entries = self.entries@;
                proof {
                    lemma_update(entries, entries, i as int, key@, entries.len() as int);
                }
                let lock: u64 = self.entries[i].lock;
                let holders: u64 = self.entries[i].holders;
                let name: String = self.entries[i].key.clone();
                self.entries.set(i, LockEntry { key: name, lock, holders: holders + 1 });
                proof {
                    let changed = self.entries@;
                    assert forall|i1: int, j1: int| 0 <= i1 < j1 < changed.len() implies (
                    #[trigger] changed[i1]).key@ != (#[trigger] changed[j1]).key@ && changed[i1].lock
                        != changed[j1].lock by {
                        assert(entries[i1].key@ != entries[j1].key@);
                    }
                    assert forall|other: Seq<char>| #[trigger]
                        held_lock(*self, other) == (if other == key@ {
                            Some((lock, (holders + 1) as u64))
                        } else {
                            held_lock(cleaned, other)
                        }) by {
                        lemma_update(entries, changed, i as int, other, entries.len() as int);
                    }
                }
                return lock;
            }
            i += 1;
        }
        let lock: u64 = self.next;
        let ghost entries = self.entries@;
        self.entries.push(LockEntry { key: key.to_owned(), lock, holders: 1 });
        self.next = self.next + 1;
        proof {
            let more = self.entries@;
            if held_lock(cleaned, key@) is Some {
                let at = lemma_held(entries, key@, entries.len() as int);
                assert(entries[at].key@ != key@);
            }
            assert forall|other: Seq<char>| #[trigger]
                held_lock(*self, other) == (if other == key@ {
                    Some((lock, 1u64))
                } else {
                    held_lock(cleaned, other)
                }) by {
                lemma_push(entries, more, other, entries.len() as int);
            }
        }
        lock
    }

    /// Lets go of a lock once.
    pub fn release(&mut self, lock: u64)
        requires
            old(self).valid(),
        ensures
            final(self).valid(),
            final(self).next == old(self).next,
            forall|key: Seq<char>| #[trigger]
                held_lock(*final(self), key) == match held_lock(*old(self), key) {
                    Some(entry) if entry.0 == lock => if entry.1 == 1 {
                        None
                    } else {
                        Some((lock, (entry.1 - 1) as u64))
                    },
                    other => other,
                },
    {
        let ghost entries = self.entries@;
        let mut i: usize = 0;
        while i < self.entries.len()
            invariant
                i <= self.entries@.len(),
                *self == *old(self),
                self.valid(),
                entries == self.entries@,
                forall|k: int| 0 <= k < i ==> (#[trigger] self.entries@[k]).lock != lock,
            decreases self.entries.len() - i,
        {
            if self.entries[i].lock == lock {
                let holders: u64 = self.entries[i].holders;
                let name: String = self.entries[i].key.clone();
                let left: u64 = if holders > 0 {
                    holders - 1
                } else {
                    0
                };
                self.entries.set(i, LockEntry { key: name, lock, holders: left });
                proof {
                    let changed = self.entries@;
                    assert forall|i1: int, j1: int| 0 <= i1 < j1 < changed.len() implies (
                    #[trigger] changed[i1]).key@ != (#[trigger] changed[j1]).key@ && changed[i1].lock
                        != changed[j1].lock by {
                        assert(entries[i1].key@ != entries[j1].key@);
                    }
                    assert forall|key: Seq<char>| #[trigger]
                        held_lock(*self, key) == match held_lock(*old(self), key) {
                            Some(entry) if entry.0 == lock => if entry.1 == 1 {
                                None
                            } else {
                                Some((lock, (entry.1 - 1) as u64))
                            },
                            other => other,
                        } by {
                        lemma_update(entries, changed, i as int, key, entries.len() as int);
                        lemma_update(entries, entries, i as int, key, entries.len() as int);
                        if held_lock(*old(self), key) is Some {
                            let at = lemma_held(entries, key, entries.len() as int);
                            if at != i {
                                assert(entries[at].lock != entries[i as int].lock);
                            }
                        }
                    }
                }
                return;
            }
            i += 1;
        }
        proof {
            assert forall|key: Seq<char>| #[trigger]
                held_lock(*self, key) == match held_lock(*old(self), key) {
                    Some(entry) if entry.0 == lock => if entry.1 == 1 {
                        None
                    } else {
                        Some((lock, (entry.1 - 1) as u64))
                    },
                    other => other,
                } by {
                if held_lock(*old(self), key) is Some {
                    let at = lemma_held(entries, key, entries.len() as int);
                    assert(entries[at].lock != lock);
                }
            }
        }
    }
}

/// Two directories that are both worked on have different locks.
pub proof fn different_keys_have_different_locks(
    locks: KeyedLocks,
    first: Seq<char>,
    second: Seq<char>,
)
    requires
        locks.valid(),
        first != second,
        held_lock(locks, first) is Some,
        held_lock(locks, second) is Some,
    ensures
        (held_lock(locks, first)->Some_0).0 != (held_lock(locks, second)->Some_0).0,
{
    let n = locks.entries@.len() as int;
    let i = lemma_held(locks.entries@, first, n);
    let j = lemma_held(locks.entries@, second, n);
    if i < j {
        assert(locks.entries@[i].lock != locks.entries@[j].lock);
    } else {
        assert(i != j);
        assert(locks.entries@[j].lock != locks.entries@[i].lock);
    }
}

/// Whoever asks for the lock of a key that is held gets the lock that is held, counted once
/// more; a key that nobody holds gets a lock that no key has. No other key changes.
pub proof fn a_held_key_has_one_lock(
    locks: &mut KeyedLocks,
    key: &str,
    r: u64,
    other: Seq<char>,
)
    requires
        old(locks).valid(),
        old(locks).next < u64::MAX,
        held_lock(*old(locks), key@) matches Some(entry) ==> entry.1 < u64::MAX,
        call_ensures(KeyedLocks::lock_for, (locks, key), r),
    ensures
        held_lock(*old(locks), key@) matches Some(entry) ==> r == entry.0,
        held_lock(*final(locks), key@) matches Some(entry) && entry.0 == r && entry.1 == 1 + (
        match held_lock(*old(locks), key@) {
            Some(before) => before.1 as int,
            None => 0,
        }),
        held_lock(*old(locks), key@) is None && other != key@ ==> (held_lock(
            *old(locks),
            other,
        ) matches Some(entry) ==> entry.0 != r),
        other != key@ ==> held_lock(*final(locks), other) == held_lock(*old(locks), other),
        final(locks).valid(),
{
    let same = held_lock(*final(locks), other);
    if other != key@ && held_lock(*old(locks), other) is Some {
        different_keys_have_different_locks(*final(locks), key@, other);
    }
}

/// A lock is gone exactly once everybody who held it has let go, one by one.
pub proof fn a_lock_goes_with_its_last_holder(locks: &mut KeyedLocks, lock: u64, key: Seq<char>)
    requires
        old(locks).valid(),
        call_ensures(KeyedLocks::release, (locks, lock), ()),
    ensures
        held_lock(*old(locks), key) matches Some(entry) ==> (entry.0 == lock && entry.1 > 1 ==> (
        held_lock(*final(locks), key) matches Some(left) && left.0 == lock && left.1 + 1
            == entry.1)),
        held_lock(*old(locks), key) matches Some(entry) ==> (entry.0 == lock && entry.1 == 1
            ==> held_lock(*final(locks), key) is None),
        held_lock(*old(locks), key) matches Some(entry) ==> (entry.0 != lock ==> held_lock(
            *final(locks),
            key,
        ) == Some(entry)),
        held_lock(*old(locks), key) is None ==> held_lock(*final(locks), key) is None,
{
    let now = held_lock(*final(locks), key);
}

} // verus!
