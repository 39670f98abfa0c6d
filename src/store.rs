use vstd::prelude::*;

use crate::word::{zero_word, Address, U256};

verus! {

/// What the map holds for `a`: the last word written there, or the zero word.
pub open spec fn value_at(m: Map<Seq<u8>, Seq<u8>>, a: Seq<u8>) -> Seq<u8> {
    if m.contains_key(a) {
        m[a]
    } else {
        zero_word()
    }
}

/// One written slot of the map.
#[derive(Clone, Copy, Debug)]
pub struct Entry {
    pub key: Address,
    pub value: U256,
}

/// Address-keyed storage of 256-bit words in memory. Every address has a slot
/// of its own; a slot that was never written reads as zero. Writing only ever
/// overwrites: no slot is removed.
pub struct AddressMap {
    entries: Vec<Entry>,
    model: Ghost<Map<Seq<u8>, Seq<u8>>>,
}

impl View for AddressMap {
    type V = Map<Seq<u8>, Seq<u8>>;

    /// The written slots, from address bytes to word bytes.
    closed spec fn view(&self) -> Map<Seq<u8>, Seq<u8>> {
        self.model@
    }
}

impl AddressMap {
    /// Every entry agrees with the model, every modelled address has an entry,
    /// and no address has two.
    pub closed spec fn wf(&self) -> bool {
        &&& forall|i: int|
            0 <= i < self.entries@.len() ==> {
                &&& #[trigger] self.model@.contains_key(self.entries@[i].key@)
                &&& self.model@[self.entries@[i].key@] == self.entries@[i].value@
            }
        &&& forall|k: Seq<u8>|
            #[trigger] self.model@.contains_key(k) ==> exists|i: int|
                0 <= i < self.entries@.len() && #[trigger] self.entries@[i].key@ == k
        &&& forall|i: int, j: int|
            0 <= i < self.entries@.len() && 0 <= j < self.entries@.len() && i != j
                ==> #[trigger] self.entries@[i].key@ != #[trigger] self.entries@[j].key@
    }

    /// A map in which no slot has been written.
    pub fn new() -> (r: AddressMap)
        ensures
            r.wf(),
            r@ == Map::<Seq<u8>, Seq<u8>>::empty(),
    {
        AddressMap { entries: Vec::new(), model: Ghost(Map::empty()) }
    }

    /// Position of the entry for `key`, if its slot was written.
    fn find(&self, key: &Address) -> (r: Option<usize>)
        requires
            self.wf(),
        ensures
            match r {
                Some(i) => i < self.entries@.len() && self.entries@[i as int].key@ == key@,
                None => !self@.contains_key(key@),
            },
    {
        let mut i: usize = 0;
        while i < self.entries.len()
            invariant
                self.wf(),
                0 <= i <= self.entries@.len(),
                forall|j: int| 0 <= j < i ==> self.entries@[j].key@ != key@,
            decreases self.entries@.len() - i,
        {
            if self.entries[i].key.same_as(key) {
                return Some(i);
            }
            i = i + 1;
        }
        None
    }

    /// The word stored for `key`, or zero if its slot was never written.
    pub fn get(&self, key: &Address) -> (r: U256)
        requires
            self.wf(),
        ensures
            r@ == value_at(self@, key@),
    {
        match self.find(key) {
            Some(i) => self.entries[i].value,
            None => U256::zero(),
        }
    }

    /// Overwrites the slot of `key` with `value`.
    pub fn set(&mut self, key: &Address, value: U256)
        requires
            old(self).wf(),
        ensures
            final(self).wf(),
            final(self)@ == old(self)@.insert(key@, value@),
    {
        let ghost old_entries = self.entries@;
        let ghost old_model = self.model@;
        let entry = Entry { key: *key, value };
        match self.find(key) {
            Some(i) => {
                self.entries.set(i, entry);
                self.model = Ghost(old_model.insert(key@, value@));
                assert forall|j: int| 0 <= j < self.entries@.len() && j != i implies #[trigger] self.entries@[j].key@
                    != key@ by {
                    assert(old_entries[j].key@ != old_entries[i as int].key@);
                }
                assert forall|k: Seq<u8>| #[trigger] self.model@.contains_key(k) implies exists|j: int|
                    0 <= j < self.entries@.len() && #[trigger] self.entries@[j].key@ == k by {
                    if k == key@ {
                        assert(self.entries@[i as int].key@ == k);
                    } else {
                        let j = choose|j: int| 0 <= j < old_entries.len() && #[trigger] old_entries[j].key@ == k;
                        assert(self.entries@[j].key@ == k);
                    }
                }
            },
            None => {
                assert forall|j: int| 0 <= j < old_entries.len() implies old_entries[j].key@
                    != key@ by {
                    assert(old_model.contains_key(old_entries[j].key@));
                }
                self.entries.push(entry);
                self.model = Ghost(old_model.insert(key@, value@));
                assert forall|k: Seq<u8>| #[trigger] self.model@.contains_key(k) implies exists|j: int|
                    0 <= j < self.entries@.len() && #[trigger] self.entries@[j].key@ == k by {
                    if k == key@ {
                        assert(self.entries@[old_entries.len() as int].key@ == k);
                    } else {
                        let j = choose|j: int| 0 <= j < old_entries.len() && #[trigger] old_entries[j].key@ == k;
                        assert(self.entries@[j].key@ == k);
                    }
                }
            },
        }
    }
}

} // verus!
