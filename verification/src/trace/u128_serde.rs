//! The wire form of a trace id: its sixteen little-endian bytes.

use vstd::prelude::*;

verus! {

/// The `i`-th little-endian byte of `u`.
pub open spec fn le_byte(u: u128, i: int) -> u8 {
    ((u >> (8 * i) as u128) & 0xffu128) as u8
}

/// The sixteen little-endian bytes of `u`.
pub open spec fn le_bytes(u: u128) -> Seq<u8> {
    Seq::new(16, |i: int| le_byte(u, i))
}

/// The number whose little-endian bytes are the first `n` bytes of `b`.
pub open spec fn le_value(b: Seq<u8>, n: nat) -> u128
    decreases n,
{
    if n == 0 {
        0
    } else {
        le_value(b, (n - 1) as nat) | ((b[n - 1] as u128) << (8 * (n - 1)) as u128)
    }
}

proof fn lemma_le_prefix(u: u128, n: nat)
    requires
        n <= 16,
    ensures
        le_value(le_bytes(u), n) == if n == 16 {
            u
        } else {
            u & ((1u128 << (8 * n) as u128) - 1) as u128
        },
    decreases n,
{
    if n == 0 {
        assert(u & ((1u128 << 0u128) - 1) as u128 == 0) by (bit_vector);
    } else {
        lemma_le_prefix(u, (n - 1) as nat);
        let k = (n - 1) as u128;
        let prev = le_value(le_bytes(u), (n - 1) as nat);
        assert(prev == u & ((1u128 << (8 * k)) - 1) as u128);
        assert(le_bytes(u)[n - 1] == ((u >> (8 * k)) & 0xffu128) as u8);
        if n == 16 {
            assert(k == 15);
            assert((u & ((1u128 << (8 * k)) - 1) as u128) | (((((u >> (8 * k)) & 0xffu128) as u8)
                as u128) << (8 * k)) == u) by (bit_vector)
                requires
                    k == 15,
            ;
        } else {
            assert((u & ((1u128 << (8 * k)) - 1) as u128) | (((((u >> (8 * k)) & 0xffu128) as u8)
                as u128) << (8 * k)) == u & ((1u128 << (8 * (k + 1))) - 1) as u128) by (bit_vector)
                requires
                    k < 15,
            ;
        }
    }
}

/// Serializes a trace id's bits as sixteen little-endian bytes.
pub fn serialize(u: &u128) -> (bytes: [u8; 16])
    ensures
        bytes@ == le_bytes(*u),
{
    let mut bytes = [0u8; 16];
    let mut i: usize = 0;
    while i < 16
        invariant
            0 <= i <= 16,
            bytes@.len() == 16,
            forall|j: int| 0 <= j < i ==> bytes@[j] == le_byte(*u, j),
        decreases 16 - i,
    {
        let b = ((*u >> (8 * i as u128)) & 0xff) as u8;
        bytes[i] = b;
        i = i + 1;
    }
    proof {
        assert(bytes@ =~= le_bytes(*u));
    }
    bytes
}

/// Deserializes a trace id's bits from sixteen little-endian bytes.
pub fn deserialize(bytes: &[u8; 16]) -> (u: u128)
    ensures
        u == le_value(bytes@, 16),
{
    let mut acc: u128 = 0;
    let mut i: usize = 0;
    while i < 16
        invariant
            0 <= i <= 16,
            bytes@.len() == 16,
            acc == le_value(bytes@, i as nat),
        decreases 16 - i,
    {
        acc = acc | ((bytes[i] as u128) << (8 * i as u128));
        i = i + 1;
    }
    acc
}

/// Deserializing the serialized bytes of a number gives the number back.
pub proof fn lemma_serialize_roundtrip(u: u128)
    ensures
        le_value(le_bytes(u), 16) == u,
{
    lemma_le_prefix(u, 16);
}

} // verus!
