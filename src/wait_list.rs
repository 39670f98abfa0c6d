use vstd::prelude::*;

use crate::hash::{keccak256_of, mapping_slot, slot_preimage};
use crate::store::{value_at, AddressMap};
use crate::word::{
    be_nat, lemma_one_word_value, lemma_zero_word_value, one_word, zero_word, Address, U256,
};

verus! {

/// The state after `set_include(a)`: the slot of `a` holds one.
pub open spec fn after_set_include(m: Map<Seq<u8>, Seq<u8>>, a: Seq<u8>) -> Map<Seq<u8>, Seq<u8>> {
    m.insert(a, one_word())
}

/// The state after `delete(a)`: the slot of `a` holds zero; it is not removed.
pub open spec fn after_delete(m: Map<Seq<u8>, Seq<u8>>, a: Seq<u8>) -> Map<Seq<u8>, Seq<u8>> {
    m.insert(a, zero_word())
}

/// The inclusion list: one 256-bit flag per address, 0 for "not included"
/// and 1 for "included". Any caller may read or flip any address's flag.
pub struct WaitList {
    wait_list: AddressMap,
}

impl View for WaitList {
    type V = Map<Seq<u8>, Seq<u8>>;

    closed spec fn view(&self) -> Map<Seq<u8>, Seq<u8>> {
        self.wait_list@
    }
}

impl WaitList {
    /// The underlying map is well formed.
    pub closed spec fn wf(&self) -> bool {
        self.wait_list.wf()
    }

    /// An empty list: every address reads as zero.
    pub fn new() -> (r: WaitList)
        ensures
            r.wf(),
            r@ == Map::<Seq<u8>, Seq<u8>>::empty(),
    {
        WaitList { wait_list: AddressMap::new() }
    }

    /// The host storage slot of the flag of `from`: the list is the first field
    /// of the contract's storage, so its map is rooted at slot zero.
    pub fn storage_slot(from: &Address) -> (r: U256)
        ensures
            r@ == keccak256_of(slot_preimage(from@, zero_word())),
    {
        let root = U256::zero();
        mapping_slot(from, &root)
    }

    /// Reads the flag of `from`. Changes nothing.
    pub fn inclusion(&self, from: Address) -> (r: Result<U256, Vec<u8>>)
        requires
            self.wf(),
        ensures
            r is Ok,
            r matches Ok(v) ==> v@ == value_at(self@, from@),
    {
        Ok(self.wait_list.get(&from))
    }

    /// Writes 1 for `from`.
    pub fn set_include(&mut self, from: Address) -> (r: Result<(), Vec<u8>>)
        requires
            old(self).wf(),
        ensures
            final(self).wf(),
            final(self)@ == after_set_include(old(self)@, from@),
            r == Ok::<(), Vec<u8>>(()),
    {
        let value = U256::one();
        self.wait_list.set(&from, value);
        Ok(())
    }

    /// Writes 0 for `from`.
    pub fn delete(&mut self, from: Address) -> (r: Result<(), Vec<u8>>)
        requires
            old(self).wf(),
        ensures
            final(self).wf(),
            final(self)@ == after_delete(old(self)@, from@),
            r == Ok::<(), Vec<u8>>(()),
    {
        let value = U256::zero();
        self.wait_list.set(&from, value);
        Ok(())
    }
}

/// An address whose slot was never written reads as 0.
pub proof fn lemma_unwritten_reads_zero(m: Map<Seq<u8>, Seq<u8>>, a: Seq<u8>)
    requires
        !m.contains_key(a),
    ensures
        be_nat(value_at(m, a)) == 0,
{
    lemma_zero_word_value();
}

/// Whatever the prior state, `set_include(a)` makes `a` read as 1.
pub proof fn lemma_set_include_reads_one(m: Map<Seq<u8>, Seq<u8>>, a: Seq<u8>)
    ensures
        be_nat(value_at(after_set_include(m, a), a)) == 1,
{
    lemma_one_word_value();
}

/// Whatever the prior state, `delete(a)` makes `a` read as 0.
pub proof fn lemma_delete_reads_zero(m: Map<Seq<u8>, Seq<u8>>, a: Seq<u8>)
    ensures
        be_nat(value_at(after_delete(m, a), a)) == 0,
{
    lemma_zero_word_value();
}

/// Doing `set_include(a)` twice leaves the state it leaves once; so does `delete(a)`.
pub proof fn lemma_writes_idempotent(m: Map<Seq<u8>, Seq<u8>>, a: Seq<u8>)
    ensures
        after_set_include(after_set_include(m, a), a) == after_set_include(m, a),
        after_delete(after_delete(m, a), a) == after_delete(m, a),
{
    assert(after_set_include(after_set_include(m, a), a) =~= after_set_include(m, a));
    assert(after_delete(after_delete(m, a), a) =~= after_delete(m, a));
}

/// `set_include(a)` and `delete(a)` leave what every other address reads unchanged.
pub proof fn lemma_writes_independent(m: Map<Seq<u8>, Seq<u8>>, a: Seq<u8>, b: Seq<u8>)
    requires
        a != b,
    ensures
        value_at(after_set_include(m, a), b) == value_at(m, b),
        value_at(after_delete(m, a), b) == value_at(m, b),
{
}

/// `set_include(a)` then `delete(a)` makes `a` read as 0; `set_include(a)` alone, as 1.
pub proof fn lemma_set_then_delete(m: Map<Seq<u8>, Seq<u8>>, a: Seq<u8>)
    ensures
        be_nat(value_at(after_delete(after_set_include(m, a), a), a)) == 0,
        be_nat(value_at(after_set_include(m, a), a)) == 1,
{
    lemma_zero_word_value();
    lemma_one_word_value();
}

} // verus!
