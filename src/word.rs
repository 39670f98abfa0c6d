use vstd::prelude::*;

verus! {

/// Big-endian reading of a byte string as a natural number.
pub open spec fn be_nat(s: Seq<u8>) -> nat
    decreases s.len(),
{
    if s.len() == 0 {
        0
    } else {
        be_nat(s.drop_last()) * 256 + s.last() as nat
    }
}

/// The 32-byte encoding of zero.
pub open spec fn zero_word() -> Seq<u8> {
    Seq::new(32, |i: int| 0u8)
}

/// The 32-byte encoding of one.
pub open spec fn one_word() -> Seq<u8> {
    Seq::new(32, |i: int| if i == 31 { 1u8 } else { 0u8 })
}

/// A 20-byte account identifier, compared by its bytes.
#[derive(Clone, Copy, Debug, PartialEq, Eq, Hash)]
pub struct Address {
    pub bytes: [u8; 20],
}

/// A 256-bit unsigned integer held as its 32 big-endian bytes.
#[derive(Clone, Copy, Debug, PartialEq, Eq, Hash)]
pub struct U256 {
    pub bytes: [u8; 32],
}

impl View for Address {
    type V = Seq<u8>;

    open spec fn view(&self) -> Seq<u8> {
        self.bytes@
    }
}

impl View for U256 {
    type V = Seq<u8>;

    open spec fn view(&self) -> Seq<u8> {
        self.bytes@
    }
}

impl Address {
    /// The address with these bytes.
    pub fn new(bytes: [u8; 20]) -> (r: Address)
        ensures
            r@ == bytes@,
    {
        Address { bytes }
    }

    /// Byte-wise equality of two addresses.
    pub fn same_as(&self, other: &Address) -> (r: bool)
        ensures
            r == (self@ == other@),
    {
        let mut i: usize = 0;
        while i < 20
            invariant
                0 <= i <= 20,
                self@.len() == 20,
                other@.len() == 20,
                forall|j: int| 0 <= j < i ==> self@[j] == other@[j],
            decreases 20 - i,
        {
            if self.bytes[i] != other.bytes[i] {
                return false;
            }
            i = i + 1;
        }
        assert(self@ =~= other@);
        true
    }
}

impl U256 {
    /// The numeric value of the word.
    pub open spec fn value(&self) -> nat {
        be_nat(self@)
    }

    /// The word that denotes 0.
    pub fn zero() -> (r: U256)
        ensures
            r@ == zero_word(),
            r.value() == 0,
    {
        let r = U256 { bytes: [0u8; 32] };
        assert(r@ =~= zero_word());
        proof { lemma_zero_word_value(); }
        r
    }

    /// The word that denotes 1.
    pub fn one() -> (r: U256)
        ensures
            r@ == one_word(),
            r.value() == 1,
    {
        let mut bytes = [0u8; 32];
        bytes[31] = 1;
        let r = U256 { bytes };
        assert(r@ =~= one_word());
        proof { lemma_one_word_value(); }
        r
    }
}

/// A string of zero bytes reads as zero.
pub proof fn lemma_zeros_value(s: Seq<u8>)
    requires
        forall|i: int| 0 <= i < s.len() ==> s[i] == 0,
    ensures
        be_nat(s) == 0,
    decreases s.len(),
{
    if s.len() > 0 {
        lemma_zeros_value(s.drop_last());
    }
}

/// The zero word denotes 0.
pub proof fn lemma_zero_word_value()
    ensures
        be_nat(zero_word()) == 0,
{
    lemma_zeros_value(zero_word());
}

/// The one word denotes 1.
pub proof fn lemma_one_word_value()
    ensures
        be_nat(one_word()) == 1,
{
    let w = one_word();
    lemma_zeros_value(w.drop_last());
}

} // verus!
