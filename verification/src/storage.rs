use vstd::prelude::*;
use crate::word::{Word, word_zero};

verus! {

/// One storage cell: the owning contract address, the slot and its value.
#[derive(Clone, Copy, Debug)]
pub struct StorageEntry {
    pub address: Word,
    pub slot: Word,
    pub value: Word,
}

/// Persistent storage: a flat (address, slot) -> value map, absent cells
/// reading as zero. The first entry for a key is the authoritative one.
#[derive(Debug)]
pub struct Storage {
    pub store: Vec<StorageEntry>,
}

/// The value of `(address, slot)` in an entry list: the first match, else zero.
pub open spec fn storage_lookup(s: Seq<StorageEntry>, address: Word, slot: Word) -> Word
    decreases s.len(),
{
    if s.len() == 0 {
        word_zero()
    } else if s[0].address == address && s[0].slot == slot {
        s[0].value
    } else {
        storage_lookup(s.drop_first(), address, slot)
    }
}

/// True iff the list holds an entry for `(address, slot)`.
pub open spec fn storage_contains(s: Seq<StorageEntry>, address: Word, slot: Word) -> bool
    decreases s.len(),
{
    if s.len() == 0 {
        false
    } else {
        (s[0].address == address && s[0].slot == slot) || storage_contains(
            s.drop_first(),
            address,
            slot,
        )
    }
}

/// Updating the first entry of a key changes that key's value and no other.
proof fn lemma_storage_update(s: Seq<StorageEntry>, i: int, e: StorageEntry, a: Word, k: Word)
    requires
        0 <= i < s.len(),
        s[i].address == e.address,
        s[i].slot == e.slot,
        forall|j: int| 0 <= j < i ==> !(s[j].address == e.address && s[j].slot == e.slot),
    ensures
        storage_lookup(s.update(i, e), a, k) == if a == e.address && k == e.slot {
            e.value
        } else {
            storage_lookup(s, a, k)
        },
    decreases s.len(),
{
    let s2 = s.update(i, e);
    if i == 0 {
        assert(s2[0] == e);
        assert(s2.drop_first() =~= s.drop_first());
    } else {
        assert(s2[0] == s[0]);
        assert(s2.drop_first() =~= s.drop_first().update(i - 1, e));
        lemma_storage_update(s.drop_first(), i - 1, e, a, k);
    }
}

/// Appending an entry for a key that has none sets that key and no other.
proof fn lemma_storage_push(s: Seq<StorageEntry>, e: StorageEntry, a: Word, k: Word)
    requires
        forall|j: int| 0 <= j < s.len() ==> !(s[j].address == e.address && s[j].slot == e.slot),
    ensures
        storage_lookup(s.push(e), a, k) == if a == e.address && k == e.slot {
            e.value
        } else {
            storage_lookup(s, a, k)
        },
    decreases s.len(),
{
    if s.len() == 0 {
        assert(s.push(e)[0] == e);
        assert(s.push(e).drop_first() =~= Seq::<StorageEntry>::empty());
        assert(storage_lookup(s, a, k) == word_zero());
        assert(storage_lookup(s.push(e).drop_first(), a, k) == word_zero());
    } else {
        assert(s.push(e)[0] == s[0]);
        assert(s.push(e).drop_first() =~= s.drop_first().push(e));
        lemma_storage_push(s.drop_first(), e, a, k);
    }
}

impl Storage {
    pub open spec fn view(&self) -> Seq<StorageEntry> {
        self.store@
    }

    pub fn new_empty() -> (r: Storage)
        ensures
            r@ == Seq::<StorageEntry>::empty(),
    {
        Storage { store: Vec::new() }
    }

    /// An independent copy with the same entries: the snapshot a sub-call runs on.
    pub fn duplicate(&self) -> (r: Storage)
        ensures
            r@ == self@,
    {
        let mut store: Vec<StorageEntry> = Vec::new();
        for i in 0..self.store.len()
            invariant
                store@.len() == i,
                forall|k: int| 0 <= k < i ==> store@[k] == self.store@[k],
            decreases self.store@.len() - i,
        {
            store.push(self.store[i]);
        }
        proof {
            assert(store@ =~= self@);
        }
        Storage { store }
    }

    /// Sets `(address, slot)` to `value`, leaving every other cell as it was.
    pub fn set_word(&mut self, address: Word, slot: Word, value: Word)
        ensures
            forall|a: Word, k: Word|
                storage_lookup(final(self)@, a, k) == if a == address && k == slot {
                    value
                } else {
                    storage_lookup(old(self)@, a, k)
                },
    {
        let n = self.store.len();
        for i in 0..n
            invariant
                n == self.store@.len(),
                self@ == old(self)@,
                forall|j: int|
                    0 <= j < i ==> !(self.store@[j].address == address && self.store@[j].slot
                        == slot),
            decreases n - i,
        {
            let e = self.store[i];
            if e.address == address && e.slot == slot {
                proof {
                    assert forall|a: Word, k: Word|
                        storage_lookup(
                            self@.update(i as int, StorageEntry { address, slot, value }),
                            a,
                            k,
                        ) == if a == address && k == slot {
                            value
                        } else {
                            storage_lookup(self@, a, k)
                        } by {
                        lemma_storage_update(
                            self@,
                            i as int,
                            StorageEntry { address, slot, value },
                            a,
                            k,
                        );
                    }
                }
                self.store[i] = StorageEntry { address, slot, value };
                return ;
            }
        }
        proof {
            assert forall|a: Word, k: Word|
                storage_lookup(self@.push(StorageEntry { address, slot, value }), a, k) == if a
                    == address && k == slot {
                    value
                } else {
                    storage_lookup(self@, a, k)
                } by {
                lemma_storage_push(self@, StorageEntry { address, slot, value }, a, k);
            }
        }
        self.store.push(StorageEntry { address, slot, value });
    }

    /// Reads `(address, slot)`; an absent cell reads as zero.
    pub fn load_word(&self, address: Word, slot: Word) -> (r: Word)
        ensures
            r == storage_lookup(self@, address, slot),
    {
        let n = self.store.len();
        proof {
            assert(self@.skip(0) =~= self@);
        }
        for i in 0..n
            invariant
                n == self.store@.len(),
                storage_lookup(self@.skip(i as int), address, slot) == storage_lookup(
                    self@,
                    address,
                    slot,
                ),
            decreases n - i,
        {
            let e = self.store[i];
            proof {
                assert(self@.skip(i as int).drop_first() =~= self@.skip(i + 1));
            }
            if e.address == address && e.slot == slot {
                return e.value;
            }
        }
        proof {
            assert(self@.skip(n as int) =~= Seq::<StorageEntry>::empty());
        }
        crate::word::zero()
    }
}

} // verus!
