//! Byte-level helpers shared by the codecs: 32-bit length fields in either
//! byte order, and sequences of zero padding bytes.

use crate::encoding_context::ByteOrder;
use vstd::bytes::{
    lemma_auto_spec_u32_to_from_le_bytes, spec_u32_from_le_bytes, spec_u32_to_le_bytes,
    u32_from_le_bytes, u32_to_le_bytes,
};
use vstd::prelude::*;

verus! {

/// The four bytes of `x` laid out in the given byte order.
pub open spec fn spec_u32_bytes(x: u32, order: ByteOrder) -> Seq<u8> {
    match order {
        ByteOrder::LittleEndian => spec_u32_to_le_bytes(x),
        ByteOrder::BigEndian => spec_u32_to_le_bytes(x).reverse(),
    }
}

/// The value encoded by four bytes in the given byte order.
pub open spec fn spec_u32_from_bytes(s: Seq<u8>, order: ByteOrder) -> u32
    recommends
        s.len() == 4,
{
    match order {
        ByteOrder::LittleEndian => spec_u32_from_le_bytes(s),
        ByteOrder::BigEndian => spec_u32_from_le_bytes(s.reverse()),
    }
}

/// The two conversions invert each other, in both byte orders.
pub proof fn lemma_u32_bytes_round_trip(x: u32, s: Seq<u8>, order: ByteOrder)
    requires
        s.len() == 4,
    ensures
        spec_u32_bytes(x, order).len() == 4,
        spec_u32_from_bytes(spec_u32_bytes(x, order), order) == x,
        spec_u32_bytes(spec_u32_from_bytes(s, order), order) == s,
{
    lemma_auto_spec_u32_to_from_le_bytes();
    match order {
        ByteOrder::LittleEndian => {
        },
        ByteOrder::BigEndian => {
            assert(spec_u32_to_le_bytes(x).reverse().reverse() =~= spec_u32_to_le_bytes(x));
            assert(spec_u32_to_le_bytes(spec_u32_from_le_bytes(s.reverse())).reverse() =~= s);
        },
    }
}

/// A sequence of `n` zero bytes, used as alignment padding.
pub open spec fn spec_zeros(n: int) -> Seq<u8> {
    Seq::new(n as nat, |i: int| 0u8)
}

fn reverse4(v: Vec<u8>) -> (r: Vec<u8>)
    requires
        v@.len() == 4,
    ensures
        r@ =~= v@.reverse(),
{
    let r: Vec<u8> = vec![v[3], v[2], v[1], v[0]];
    r
}

/// Lay out `x` as four bytes in the given byte order.
pub fn u32_to_bytes(x: u32, order: ByteOrder) -> (r: Vec<u8>)
    ensures
        r@ == spec_u32_bytes(x, order),
        r@.len() == 4,
{
    proof {
        lemma_auto_spec_u32_to_from_le_bytes();
    }
    let le = u32_to_le_bytes(x);
    match order {
        ByteOrder::LittleEndian => le,
        ByteOrder::BigEndian => reverse4(le),
    }
}

/// Read a 32-bit value from four bytes in the given byte order.
pub fn u32_from_bytes(s: &[u8], order: ByteOrder) -> (x: u32)
    requires
        s@.len() == 4,
    ensures
        x == spec_u32_from_bytes(s@, order),
{
    match order {
        ByteOrder::LittleEndian => u32_from_le_bytes(s),
        ByteOrder::BigEndian => {
            let v: Vec<u8> = vec![s[3], s[2], s[1], s[0]];
            proof {
                assert(v@ =~= s@.reverse());
            }
            u32_from_le_bytes(v.as_slice())
        },
    }
}

/// Append `n` zero bytes to `out`.
pub fn push_zeros(out: &mut Vec<u8>, n: usize)
    ensures
        final(out)@ =~= old(out)@ + spec_zeros(n as int),
{
    let mut i: usize = 0;
    while i < n
        invariant
            i <= n,
            out@ =~= old(out)@ + spec_zeros(i as int),
        decreases n - i,
    {
        out.push(0u8);
        i = i + 1;
    }
}

} // verus!
