use crate::registry::{AccountId, Dna, Error, Gender, Pallet};
use vstd::prelude::*;

verus! {

/// The 16-byte BLAKE2b digest of `data`.
pub uninterp spec fn blake2_128_of(data: Seq<u8>) -> Seq<u8>;

/// Relies on sp_core_hashing::blake2_128: the 16-byte BLAKE2b digest of the
/// bytes, which depends on the bytes alone.
#[verifier::external_body]
fn blake2_128(data: &Vec<u8>) -> (r: Dna)
    ensures
        r@ == blake2_128_of(data@),
{
    sp_core_hashing::blake2_128(data.as_slice())
}

/// The four bytes of `x`, least significant first.
pub open spec fn le_bytes_u32(x: u32) -> Seq<u8> {
    seq![
        (x % 256) as u8,
        ((x / 256) % 256) as u8,
        ((x / 65536) % 256) as u8,
        ((x / 16777216) % 256) as u8,
    ]
}

/// The bytes that are hashed into a new identity: the entropy, then the
/// index of the transaction in its block and the block number, each as four
/// little-endian bytes.
pub open spec fn dna_payload(random: Seq<u8>, extrinsic_index: u32, block_number: u32) -> Seq<u8> {
    random + le_bytes_u32(extrinsic_index) + le_bytes_u32(block_number)
}

/// The gender that an identity carries: male when its first byte is even.
pub open spec fn gender_of(dna: Dna) -> Gender {
    if dna[0] % 2 == 0 {
        Gender::Male
    } else {
        Gender::Female
    }
}

/// Appends the four little-endian bytes of `x` to `out`.
fn push_le_u32(out: &mut Vec<u8>, x: u32)
    ensures
        final(out)@ == old(out)@ + le_bytes_u32(x),
{
    out.push((x % 256) as u8);
    out.push(((x / 256) % 256) as u8);
    out.push(((x / 65536) % 256) as u8);
    out.push(((x / 16777216) % 256) as u8);
    assert(final(out)@ =~= old(out)@ + le_bytes_u32(x));
}

/// Encodes the payload that identifies a new kitty.
pub fn encode_payload(random: &[u8; 32], extrinsic_index: u32, block_number: u32) -> (r: Vec<u8>)
    ensures
        r@ == dna_payload(random@, extrinsic_index, block_number),
{
    let mut out: Vec<u8> = Vec::new();
    let mut i: usize = 0;
    while i < 32
        invariant
            i <= 32,
            out@ =~= random@.subrange(0, i as int),
        decreases 32 - i,
    {
        out.push(random[i]);
        i += 1;
    }
    push_le_u32(&mut out, extrinsic_index);
    push_le_u32(&mut out, block_number);
    out
}

/// The gender carried by `dna`.
pub fn gender_from_dna(dna: &Dna) -> (r: Gender)
    ensures
        r == gender_of(*dna),
{
    if dna[0] % 2 == 0 {
        Gender::Male
    } else {
        Gender::Female
    }
}

/// Derives a new identity and its gender from 32 bytes of entropy, the
/// index of the transaction in its block and the block number.
pub fn gen_dna(random: &[u8; 32], extrinsic_index: u32, block_number: u32) -> (r: (Dna, Gender))
    ensures
        r.0@ == blake2_128_of(dna_payload(random@, extrinsic_index, block_number)),
        r.1 == gender_of(r.0),
{
    let payload = encode_payload(random, extrinsic_index, block_number);
    let hash = blake2_128(&payload);
    (hash, gender_from_dna(&hash))
}

impl Pallet {
    /// Mints a kitty for `sender` whose identity and gender `gen_dna` derives
    /// from the given entropy and position in the chain.
    pub fn create_kitty(
        &mut self,
        sender: AccountId,
        random: &[u8; 32],
        extrinsic_index: u32,
        block_number: u32,
    ) -> (r: Result<Dna, Error>)
        requires
            old(self).wf(),
        ensures
            final(self).wf(),
            exists|dna: Dna|
                {
                    &&& dna@ == blake2_128_of(dna_payload(random@, extrinsic_index, block_number))
                    &&& #[trigger] Self::minted(*old(self), *final(self), sender, dna, gender_of(dna), r)
                },
    {
        let (dna, gender) = gen_dna(random, extrinsic_index, block_number);
        let r = self.mint(sender, dna, gender);
        assert(Self::minted(*old(self), *self, sender, dna, gender_of(dna), r));
        r
    }
}

} // verus!
