use parity_scale_codec::Encode;
use vstd::prelude::*;

verus! {

/// Little-endian bytes of a `u64`, as SCALE writes it.
pub open spec fn le_bytes_u64(x: u64) -> Seq<u8> {
    seq![
        (x % 0x100) as u8,
        ((x / 0x100) % 0x100) as u8,
        ((x / 0x1_0000) % 0x100) as u8,
        ((x / 0x100_0000) % 0x100) as u8,
        ((x / 0x1_0000_0000) % 0x100) as u8,
        ((x / 0x100_0000_0000) % 0x100) as u8,
        ((x / 0x1_0000_0000_0000) % 0x100) as u8,
        ((x / 0x100_0000_0000_0000) % 0x100) as u8,
    ]
}

/// Little-endian bytes of a `u32`, as SCALE writes it.
pub open spec fn le_bytes_u32(x: u32) -> Seq<u8> {
    seq![
        (x % 0x100) as u8,
        ((x / 0x100) % 0x100) as u8,
        ((x / 0x1_0000) % 0x100) as u8,
        ((x / 0x100_0000) % 0x100) as u8,
    ]
}

/// SCALE encoding of an optional `u32`: a tag byte, then the value if any.
pub open spec fn option_u32_bytes(o: Option<u32>) -> Seq<u8> {
    match o {
        None => seq![0u8],
        Some(x) => seq![1u8] + le_bytes_u32(x),
    }
}

/// Seed material of one request: the encoded triple of the chain's random
/// seed, the requesting account and the request's index in its block.
pub open spec fn seed_bytes(random_seed: Seq<u8>, sender: u64, index: Option<u32>) -> Seq<u8> {
    random_seed + le_bytes_u64(sender) + option_u32_bytes(index)
}

/// The 128-bit Blake2b digest of a byte string.
pub uninterp spec fn blake2_128_of(data: Seq<u8>) -> Seq<u8>;

/// The sixteen bytes drawn from one request's seed material.
pub open spec fn dna_of(random_seed: Seq<u8>, sender: u64, index: Option<u32>) -> Seq<u8> {
    blake2_128_of(seed_bytes(random_seed, sender, index))
}

/// Relies on parity-scale-codec's `Encode` for a tuple, which writes its
/// fields in order: a byte array as its bytes, a `u64` as eight little-endian
/// bytes, an `Option<u32>` as a tag byte followed by four little-endian bytes.
#[verifier::external_body]
fn encode_seed(random_seed: &[u8; 32], sender: u64, index: Option<u32>) -> (r: Vec<u8>)
    ensures
        r@ == seed_bytes(random_seed@, sender, index),
{
    (*random_seed, sender, index).encode()
}

/// Relies on sp_io::hashing::blake2_128: the 128-bit Blake2b digest of `data`,
/// a function of `data` alone.
#[verifier::external_body]
fn hash_128(data: &Vec<u8>) -> (r: [u8; 16])
    ensures
        r@ == blake2_128_of(data@),
{
    sp_io::hashing::blake2_128(data.as_slice())
}

/// Sixteen unpredictable bytes for one request: the hash of the encoded seed
/// material. Different requests in one block differ in `index`.
pub fn random_dna(random_seed: &[u8; 32], sender: u64, index: Option<u32>) -> (r: [u8; 16])
    ensures
        r@ == dna_of(random_seed@, sender, index),
{
    let seed = encode_seed(random_seed, sender, index);
    hash_128(&seed)
}

proof fn lemma_le_bytes_u32_injective(a: u32, b: u32)
    requires
        le_bytes_u32(a) == le_bytes_u32(b),
    ensures
        a == b,
{
    assert(le_bytes_u32(a)[0] == le_bytes_u32(b)[0]);
    assert(le_bytes_u32(a)[1] == le_bytes_u32(b)[1]);
    assert(le_bytes_u32(a)[2] == le_bytes_u32(b)[2]);
    assert(le_bytes_u32(a)[3] == le_bytes_u32(b)[3]);
    assert(a == b) by (bit_vector)
        requires
            a % 0x100 == b % 0x100,
            (a / 0x100) % 0x100 == (b / 0x100) % 0x100,
            (a / 0x1_0000) % 0x100 == (b / 0x1_0000) % 0x100,
            (a / 0x100_0000) % 0x100 == (b / 0x100_0000) % 0x100,
    ;
}

/// Two requests that share the random seed and the account but not the index
/// hash different seed material: the index separates them.
pub proof fn lemma_index_separates_seed(
    random_seed: Seq<u8>,
    sender: u64,
    index1: Option<u32>,
    index2: Option<u32>,
)
    requires
        index1 != index2,
    ensures
        seed_bytes(random_seed, sender, index1) != seed_bytes(random_seed, sender, index2),
{
    let s1 = seed_bytes(random_seed, sender, index1);
    let s2 = seed_bytes(random_seed, sender, index2);
    let n = random_seed.len() + 8int;
    if s1 == s2 {
        assert(s1.subrange(n, s1.len() as int) =~= option_u32_bytes(index1));
        assert(s2.subrange(n, s2.len() as int) =~= option_u32_bytes(index2));
        match (index1, index2) {
            (Some(a), Some(b)) => {
                assert(le_bytes_u32(a) =~= option_u32_bytes(index1).subrange(1, 5));
                assert(le_bytes_u32(b) =~= option_u32_bytes(index2).subrange(1, 5));
                lemma_le_bytes_u32_injective(a, b);
            },
            (Some(a), None) => {
                assert(option_u32_bytes(index1).len() != option_u32_bytes(index2).len());
            },
            (None, Some(b)) => {
                assert(option_u32_bytes(index1).len() != option_u32_bytes(index2).len());
            },
            (None, None) => {},
        }
    }
}

} // verus!
