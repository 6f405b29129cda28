//! Fixed-width big-endian integer fields of the wire format: the 4-byte
//! length prefix and the 8-byte document identifiers.

use vstd::prelude::*;

verus! {

/// The unsigned value of four bytes read big-endian.
pub open spec fn be32_value(b0: u8, b1: u8, b2: u8, b3: u8) -> u32 {
    ((b0 as u32) << 24) | ((b1 as u32) << 16) | ((b2 as u32) << 8) | (b3 as u32)
}

/// The four big-endian bytes of a 32-bit value, most significant first.
pub open spec fn be32_bytes(n: u32) -> Seq<u8> {
    seq![
        ((n >> 24) & 0xff) as u8,
        ((n >> 16) & 0xff) as u8,
        ((n >> 8) & 0xff) as u8,
        (n & 0xff) as u8,
    ]
}

/// The unsigned value of eight bytes read big-endian.
pub open spec fn be64_value(
    b0: u8,
    b1: u8,
    b2: u8,
    b3: u8,
    b4: u8,
    b5: u8,
    b6: u8,
    b7: u8,
) -> u64 {
    ((b0 as u64) << 56) | ((b1 as u64) << 48) | ((b2 as u64) << 40) | ((b3 as u64) << 32)
        | ((b4 as u64) << 24) | ((b5 as u64) << 16) | ((b6 as u64) << 8) | (b7 as u64)
}

/// The eight big-endian bytes of a 64-bit identifier, most significant first.
pub open spec fn be64_bytes(n: u64) -> Seq<u8> {
    seq![
        ((n >> 56) & 0xff) as u8,
        ((n >> 48) & 0xff) as u8,
        ((n >> 40) & 0xff) as u8,
        ((n >> 32) & 0xff) as u8,
        ((n >> 24) & 0xff) as u8,
        ((n >> 16) & 0xff) as u8,
        ((n >> 8) & 0xff) as u8,
        (n & 0xff) as u8,
    ]
}

/// The identifier whose big-endian bytes sit at offset `i` of `p`.
pub open spec fn be64_at(p: Seq<u8>, i: int) -> u64
    recommends
        0 <= i,
        i + 8 <= p.len(),
{
    be64_value(p[i], p[i + 1], p[i + 2], p[i + 3], p[i + 4], p[i + 5], p[i + 6], p[i + 7])
}

/// Reading back the four bytes of a 32-bit value yields that value.
pub proof fn lemma_be32_round_trip(n: u32)
    ensures
        be32_value(
            be32_bytes(n)[0],
            be32_bytes(n)[1],
            be32_bytes(n)[2],
            be32_bytes(n)[3],
        ) == n,
{
    assert(((((((n >> 24) & 0xff) as u8) as u32) << 24) | (((((n >> 16) & 0xff) as u8) as u32)
        << 16) | (((((n >> 8) & 0xff) as u8) as u32) << 8) | (((n & 0xff) as u8) as u32)) == n)
        by (bit_vector);
}

/// Reading back the eight bytes of a 64-bit identifier yields that identifier.
pub proof fn lemma_be64_round_trip(n: u64)
    ensures
        be64_at(be64_bytes(n), 0) == n,
{
    assert(((((((n >> 56) & 0xff) as u8) as u64) << 56) | (((((n >> 48) & 0xff) as u8) as u64)
        << 48) | (((((n >> 40) & 0xff) as u8) as u64) << 40) | (((((n >> 32) & 0xff) as u8) as u64)
        << 32) | (((((n >> 24) & 0xff) as u8) as u64) << 24) | (((((n >> 16) & 0xff) as u8) as u64)
        << 16) | (((((n >> 8) & 0xff) as u8) as u64) << 8) | (((n & 0xff) as u8) as u64)) == n)
        by (bit_vector);
}

/// The concatenated big-endian bytes of a list of identifiers.
pub open spec fn id_list_bytes(ids: Seq<u64>) -> Seq<u8>
    decreases ids.len(),
{
    if ids.len() == 0 {
        Seq::empty()
    } else {
        be64_bytes(ids[0]) + id_list_bytes(ids.skip(1))
    }
}

/// The identifiers read from successive 8-byte groups of `p`; a trailing
/// group shorter than 8 bytes carries no identifier and is ignored.
pub open spec fn ids_decoded(p: Seq<u8>) -> Seq<u64>
    decreases p.len(),
{
    if p.len() < 8 {
        Seq::empty()
    } else {
        seq![be64_at(p, 0)] + ids_decoded(p.skip(8))
    }
}

/// A list of identifiers occupies eight bytes per identifier.
pub proof fn lemma_id_list_bytes_len(ids: Seq<u64>)
    ensures
        id_list_bytes(ids).len() == 8 * ids.len(),
    decreases ids.len(),
{
    if ids.len() != 0 {
        lemma_id_list_bytes_len(ids.skip(1));
    }
}

/// Appending one identifier appends exactly its eight bytes.
pub proof fn lemma_id_list_bytes_push(ids: Seq<u64>, x: u64)
    ensures
        id_list_bytes(ids.push(x)) == id_list_bytes(ids) + be64_bytes(x),
    decreases ids.len(),
{
    if ids.len() == 0 {
        assert(ids.push(x)[0] == x);
        assert(ids.push(x).skip(1) =~= Seq::<u64>::empty());
        assert(id_list_bytes(ids.push(x)) == be64_bytes(x) + id_list_bytes(Seq::<u64>::empty()));
        assert(be64_bytes(x) + Seq::<u8>::empty() =~= be64_bytes(x));
        assert(id_list_bytes(ids) + be64_bytes(x) =~= be64_bytes(x));
    } else {
        lemma_id_list_bytes_push(ids.skip(1), x);
        assert(ids.push(x)[0] == ids[0]);
        assert(ids.push(x).skip(1) =~= ids.skip(1).push(x));
        assert(be64_bytes(ids[0]) + (id_list_bytes(ids.skip(1)) + be64_bytes(x)) =~= (be64_bytes(
            ids[0],
        ) + id_list_bytes(ids.skip(1))) + be64_bytes(x));
    }
}

/// Reading the concatenated bytes of a list of identifiers, eight bytes at
/// a time, yields the same list.
pub proof fn lemma_ids_round_trip(ids: Seq<u64>)
    ensures
        ids_decoded(id_list_bytes(ids)) == ids,
    decreases ids.len(),
{
    if ids.len() == 0 {
        assert(ids_decoded(id_list_bytes(ids)) =~= ids);
    } else {
        let p = id_list_bytes(ids);
        lemma_id_list_bytes_len(ids.skip(1));
        assert(p.len() == 8 + id_list_bytes(ids.skip(1)).len());
        lemma_be64_round_trip(ids[0]);
        assert(p.skip(8) =~= id_list_bytes(ids.skip(1)));
        assert(be64_at(p, 0) == be64_at(be64_bytes(ids[0]), 0)) by {
            assert(forall|i: int| 0 <= i < 8 ==> p[i] == be64_bytes(ids[0])[i]);
        }
        lemma_ids_round_trip(ids.skip(1));
        assert(ids_decoded(p) =~= ids);
    }
}

/// Appends the four big-endian bytes of `n` to `out`.
pub fn push_be32(out: &mut Vec<u8>, n: u32)
    ensures
        final(out)@ == old(out)@ + be32_bytes(n),
{
    proof {
        assert((n >> 24) & 0xff < 256 && (n >> 16) & 0xff < 256 && (n >> 8) & 0xff < 256 && n
            & 0xff < 256) by (bit_vector);
    }
    out.push(((n >> 24) & 0xff) as u8);
    out.push(((n >> 16) & 0xff) as u8);
    out.push(((n >> 8) & 0xff) as u8);
    out.push((n & 0xff) as u8);
    proof {
        assert(final(out)@ =~= old(out)@ + be32_bytes(n));
    }
}

/// Appends the eight big-endian bytes of `n` to `out`.
pub fn push_be64(out: &mut Vec<u8>, n: u64)
    ensures
        final(out)@ == old(out)@ + be64_bytes(n),
{
    proof {
        assert((n >> 56) & 0xff < 256 && (n >> 48) & 0xff < 256 && (n >> 40) & 0xff < 256 && (n
            >> 32) & 0xff < 256 && (n >> 24) & 0xff < 256 && (n >> 16) & 0xff < 256 && (n >> 8)
            & 0xff < 256 && n & 0xff < 256) by (bit_vector);
    }
    out.push(((n >> 56) & 0xff) as u8);
    out.push(((n >> 48) & 0xff) as u8);
    out.push(((n >> 40) & 0xff) as u8);
    out.push(((n >> 32) & 0xff) as u8);
    out.push(((n >> 24) & 0xff) as u8);
    out.push(((n >> 16) & 0xff) as u8);
    out.push(((n >> 8) & 0xff) as u8);
    out.push((n & 0xff) as u8);
    proof {
        assert(final(out)@ =~= old(out)@ + be64_bytes(n));
    }
}

/// Combines four bytes into the 32-bit value they spell big-endian.
pub fn read_be32(b0: u8, b1: u8, b2: u8, b3: u8) -> (r: u32)
    ensures
        r == be32_value(b0, b1, b2, b3),
{
    ((b0 as u32) << 24) | ((b1 as u32) << 16) | ((b2 as u32) << 8) | (b3 as u32)
}

/// Combines eight bytes into the 64-bit identifier they spell big-endian.
pub fn read_be64(b0: u8, b1: u8, b2: u8, b3: u8, b4: u8, b5: u8, b6: u8, b7: u8) -> (r: u64)
    ensures
        r == be64_value(b0, b1, b2, b3, b4, b5, b6, b7),
{
    ((b0 as u64) << 56) | ((b1 as u64) << 48) | ((b2 as u64) << 40) | ((b3 as u64) << 32) | ((b4
        as u64) << 24) | ((b5 as u64) << 16) | ((b6 as u64) << 8) | (b7 as u64)
}

} // verus!
