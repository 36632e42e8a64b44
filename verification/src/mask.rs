//! The 4-byte XOR mask applied to client-to-server payloads
//! (RFC 6455 section 5.3).

use vstd::prelude::*;

verus! {

/// The result of XOR-masking `data` with the 4-byte `key`:
/// byte `i` of the result is `data[i] ^ key[i % 4]`.
pub open spec fn masked_bytes(data: Seq<u8>, key: Seq<u8>) -> Seq<u8>
    recommends
        key.len() == 4,
{
    Seq::new(data.len(), |i: int| data[i] ^ key[i % 4])
}

/// Masking twice with the same key gives the data back: the XOR mask is its
/// own inverse, so one routine serves masking on send and unmasking on receive.
pub proof fn lemma_mask_involution(data: Seq<u8>, key: Seq<u8>)
    requires
        key.len() == 4,
    ensures
        masked_bytes(masked_bytes(data, key), key) == data,
{
    let once = masked_bytes(data, key);
    let twice = masked_bytes(once, key);
    assert forall|i: int| 0 <= i < data.len() implies twice[i] == data[i] by {
        let k = key[i % 4];
        let d = data[i];
        assert((d ^ k) ^ k == d) by (bit_vector);
    }
    assert(twice =~= data);
}

/// Applies the 4-byte XOR mask to `data` in place.
pub fn apply_mask(data: &mut Vec<u8>, mask: [u8; 4])
    ensures
        final(data)@ == masked_bytes(old(data)@, mask@),
{
    let ghost orig = data@;
    let len = data.len();
    let mut i: usize = 0;
    while i < len
        invariant
            len == orig.len(),
            data@.len() == orig.len(),
            i <= len,
            forall|j: int| 0 <= j < i ==> data@[j] == orig[j] ^ mask@[j % 4],
            forall|j: int| i <= j < len ==> data@[j] == orig[j],
        decreases len - i,
    {
        let b = data[i];
        data[i] = b ^ mask[i % 4];
        i += 1;
    }
    assert(data@ =~= masked_bytes(orig, mask@));
}

/// Appends the XOR-masked image of `data` under `key` to `writer`.
pub(crate) fn write_masked(writer: &mut Vec<u8>, data: &[u8], key: [u8; 4])
    ensures
        final(writer)@ == old(writer)@ + masked_bytes(data@, key@),
{
    let ghost base = old(writer)@;
    let mut i: usize = 0;
    while i < data.len()
        invariant
            i <= data@.len(),
            writer@.len() == base.len() + i,
            forall|j: int| 0 <= j < base.len() ==> writer@[j] == base[j],
            forall|j: int| 0 <= j < i ==> writer@[base.len() + j] == (data@[j] ^ key@[j % 4]),
        decreases data@.len() - i,
    {
        let b = data[i];
        writer.push(b ^ key[i % 4]);
        i += 1;
    }
    assert(writer@ =~= base + masked_bytes(data@, key@));
}

/// A 4-byte mask key together with a cursor that cycles through it, for
/// unmasking a payload that arrives in several pieces.
#[derive(Debug, Clone, Copy)]
pub struct Mask {
    /// The position within `keys` of the next key byte, always below 4.
    pub index: usize,
    /// The four key bytes.
    pub keys: [u8; 4],
}

impl Mask {
    /// A mask whose cursor stands at the first key byte.
    pub fn new(keys: [u8; 4]) -> (r: Mask)
        ensures
            r.keys == keys,
            r.index == 0,
    {
        Mask { index: 0, keys }
    }

    /// Hands out the next key byte and advances the cursor cyclically.
    pub fn next_key(&mut self) -> (r: u8)
        requires
            old(self).index < 4,
        ensures
            r == old(self).keys@[old(self).index as int],
            final(self).keys == old(self).keys,
            final(self).index == (old(self).index + 1) % 4,
    {
        let key = self.keys[self.index];
        self.index = (self.index + 1) % 4;
        key
    }
}

} // verus!
