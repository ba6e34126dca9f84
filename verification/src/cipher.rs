//! The repeating-key XOR cipher that every packet goes through.
use vstd::prelude::*;

verus! {

/// The bytes of `data` combined with `key`, repeated over the length of `data`.
pub open spec fn xor_stream(data: Seq<u8>, key: Seq<u8>) -> Seq<u8> {
    Seq::new(data.len(), |i: int| data[i] ^ key[i % (key.len() as int)])
}

/// Performs an XOR cipher on the data, in place.
/// data: The data to encrypt/decrypt.
/// key: The key to use for the cipher.
pub fn xor(data: &mut [u8], key: &[u8])
    requires
        old(data)@.len() == 0 || key@.len() > 0,
    ensures
        final(data)@ == xor_stream(old(data)@, key@),
{
    let n = data.len();
    let mut i: usize = 0;
    while i < n
        invariant
            n == data@.len(),
            n == old(data)@.len(),
            i <= n,
            n == 0 || key@.len() > 0,
            forall|j: int| 0 <= j < i ==> data@[j] == old(data)@[j] ^ key@[j % (key@.len() as int)],
            forall|j: int| i <= j < n ==> data@[j] == old(data)@[j],
        decreases n - i,
    {
        let b = data[i] ^ key[i % key.len()];
        data[i] = b;
        i = i + 1;
    }
    assert(data@ =~= xor_stream(old(data)@, key@));
}

/// Applying the cipher twice with the same key gives the data back:
/// encryption and decryption are the same operation.
pub proof fn lemma_xor_involution(data: Seq<u8>, key: Seq<u8>)
    requires
        key.len() > 0,
    ensures
        xor_stream(xor_stream(data, key), key) == data,
{
    assert forall|i: int| 0 <= i < data.len() implies #[trigger] xor_stream(
        xor_stream(data, key),
        key,
    )[i] == data[i] by {
        let a = data[i];
        let b = key[i % (key.len() as int)];
        assert((a ^ b) ^ b == a) by (bit_vector);
    }
    assert(xor_stream(xor_stream(data, key), key) =~= data);
}

} // verus!
