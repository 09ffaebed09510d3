//! The XOR stream cipher of the hybrid scheme.
//!
//! The shared secret established by the KEM is stretched by repetition into a
//! keystream as long as the data, and every data byte is XOR-combined with
//! the keystream byte at its position. Applying the same keystream twice
//! restores the data, which is what makes decryption work. Repetition is
//! simple key stretching, not a cryptographic derivation function; that is a
//! deliberate property of this scheme.

use vstd::prelude::*;

verus! {

/// The result of XOR-combining each byte of `data` with the byte of the
/// repeated `key` at the same position.
pub open spec fn xor_keystream(data: Seq<u8>, key: Seq<u8>) -> Seq<u8>
    recommends
        key.len() > 0,
{
    Seq::new(data.len(), |i: int| data[i] ^ key[i % (key.len() as int)])
}

/// Law: applying the same keystream twice restores the data.
pub proof fn lemma_xor_keystream_involutive(data: Seq<u8>, key: Seq<u8>)
    requires
        key.len() > 0,
    ensures
        xor_keystream(xor_keystream(data, key), key) == data,
{
    let once = xor_keystream(data, key);
    let twice = xor_keystream(once, key);
    assert forall|i: int| 0 <= i < data.len() implies twice[i] == data[i] by {
        let d = data[i];
        let k = key[i % (key.len() as int)];
        assert((d ^ k) ^ k == d) by (bit_vector);
    }
    assert(twice =~= data);
}

/// XOR-combines each byte of `data` with the repeated `key`, position for
/// position. The result is exactly as long as `data`.
pub fn apply_keystream(data: &Vec<u8>, key: &Vec<u8>) -> (r: Vec<u8>)
    requires
        key@.len() > 0,
    ensures
        r@ == xor_keystream(data@, key@),
{
    let mut out: Vec<u8> = Vec::new();
    let mut i: usize = 0;
    while i < data.len()
        invariant
            key@.len() > 0,
            i <= data@.len(),
            out@.len() == i,
            forall|j: int|
                0 <= j < i ==> out@[j] == data@[j] ^ key@[j % (key@.len() as int)],
        decreases data@.len() - i,
    {
        let b = data[i] ^ key[i % key.len()];
        out.push(b);
        i = i + 1;
    }
    assert(out@ =~= xor_keystream(data@, key@));
    out
}

} // verus!
