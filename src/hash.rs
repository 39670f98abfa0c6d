use vstd::prelude::*;

use crate::word::{Address, U256};

verus! {

/// The Keccak-256 digest of a byte string.
pub uninterp spec fn keccak256_of(data: Seq<u8>) -> Seq<u8>;

/// Relies on stylus_sdk::crypto::keccak, which returns the 32-byte Keccak-256
/// digest of the bytes it is given.
#[verifier::external_body]
fn keccak(data: &[u8]) -> (r: [u8; 32])
    ensures
        r@ == keccak256_of(data@),
{
    stylus_sdk::crypto::keccak(data).0
}

/// The bytes hashed to locate the slot of `key` in a map rooted at `root`:
/// the key left-padded to a 32-byte word, then the root word.
pub open spec fn slot_preimage(key: Seq<u8>, root: Seq<u8>) -> Seq<u8> {
    Seq::new(12, |i: int| 0u8) + key + root
}

/// The first four bytes of the digest of a function's signature.
pub open spec fn selector_of(signature: Seq<u8>) -> Seq<u8> {
    keccak256_of(signature).subrange(0, 4)
}

/// The storage slot of `key` in a map rooted at slot `root`.
pub fn mapping_slot(key: &Address, root: &U256) -> (r: U256)
    ensures
        r@ == keccak256_of(slot_preimage(key@, root@)),
{
    let mut data: Vec<u8> = Vec::new();
    let mut i: usize = 0;
    while i < 12
        invariant
            0 <= i <= 12,
            data@ == Seq::new(i as nat, |j: int| 0u8),
        decreases 12 - i,
    {
        data.push(0u8);
        i = i + 1;
        assert(data@ =~= Seq::new(i as nat, |j: int| 0u8));
    }
    let mut i: usize = 0;
    while i < 20
        invariant
            0 <= i <= 20,
            key@.len() == 20,
            data@ == Seq::new(12, |j: int| 0u8) + key@.subrange(0, i as int),
        decreases 20 - i,
    {
        data.push(key.bytes[i]);
        i = i + 1;
        assert(data@ =~= Seq::new(12, |j: int| 0u8) + key@.subrange(0, i as int));
    }
    let mut i: usize = 0;
    while i < 32
        invariant
            0 <= i <= 32,
            key@.len() == 20,
            root@.len() == 32,
            data@ == Seq::new(12, |j: int| 0u8) + key@ + root@.subrange(0, i as int),
        decreases 32 - i,
    {
        data.push(root.bytes[i]);
        i = i + 1;
        assert(data@ =~= Seq::new(12, |j: int| 0u8) + key@ + root@.subrange(0, i as int));
    }
    assert(key@.subrange(0, 20) =~= key@);
    assert(root@.subrange(0, 32) =~= root@);
    U256 { bytes: keccak(data.as_slice()) }
}

/// The four-byte selector of a function signature such as `transfer(address,uint256)`.
pub fn function_selector(signature: &[u8]) -> (r: [u8; 4])
    ensures
        r@ == selector_of(signature@),
{
    let digest = keccak(signature);
    let r = [digest[0], digest[1], digest[2], digest[3]];
    assert(r@ =~= selector_of(signature@));
    r
}

/// Distinct (key, root) pairs hash distinct preimages: the padding never lets
/// two keys, or two roots, share the bytes that are hashed.
pub proof fn lemma_slot_preimage_injective(a: Seq<u8>, ra: Seq<u8>, b: Seq<u8>, rb: Seq<u8>)
    requires
        a.len() == 20,
        b.len() == 20,
        ra.len() == 32,
        rb.len() == 32,
        slot_preimage(a, ra) == slot_preimage(b, rb),
    ensures
        a == b,
        ra == rb,
{
    let pa = slot_preimage(a, ra);
    let pb = slot_preimage(b, rb);
    assert(a =~= pa.subrange(12, 32));
    assert(b =~= pb.subrange(12, 32));
    assert(ra =~= pa.subrange(32, 64));
    assert(rb =~= pb.subrange(32, 64));
}

} // verus!
