//! The encoding context: byte order plus the absolute position of the start
//! of the buffer being processed within the overall message.
//!
//! Alignment is always computed relative to the whole message, not the local
//! buffer, so nested decodes of sub-ranges stay correct.  The context is an
//! immutable value: it is constructed once per top-level encode/decode call
//! and passed down unchanged; callers perform position updates themselves.

use vstd::arithmetic::div_mod::lemma_add_mod_noop;
use vstd::prelude::*;

verus! {

/// The byte order in which multi-byte scalars (such as length fields) are
/// laid out on the wire.
#[derive(Clone, Copy, Debug, PartialEq, Eq, Structural)]
pub enum ByteOrder {
    LittleEndian,
    BigEndian,
}

/// Number of zero bytes that must be inserted before a value whose type has
/// alignment `alignment`, when the next byte would otherwise be written at
/// absolute position `position`.
pub open spec fn spec_padding(alignment: int, position: int) -> int
    recommends
        1 <= alignment,
{
    (alignment - position % alignment) % alignment
}

/// After inserting the padding, the write position is aligned.
pub proof fn lemma_padding_aligns(alignment: int, position: int)
    requires
        1 <= alignment,
        0 <= position,
    ensures
        0 <= spec_padding(alignment, position) < alignment,
        (position + spec_padding(alignment, position)) % alignment == 0,
{
    let pad = spec_padding(alignment, position);
    let r = position % alignment;
    vstd::arithmetic::div_mod::lemma_mod_bound(position, alignment);
    vstd::arithmetic::div_mod::lemma_mod_self_0(alignment);
    if r == 0 {
        vstd::arithmetic::div_mod::lemma_small_mod(0, alignment as nat);
        assert(pad == 0);
        assert((position + 0) % alignment == 0);
    } else {
        vstd::arithmetic::div_mod::lemma_small_mod((alignment - r) as nat, alignment as nat);
        assert(pad == alignment - r);
        // position + pad == (position - r) + alignment, and alignment divides
        // position - r == alignment * (position / alignment).
        vstd::arithmetic::div_mod::lemma_fundamental_div_mod(position, alignment);
        vstd::arithmetic::div_mod::lemma_mod_multiples_basic(position / alignment + 1, alignment);
        assert(position + pad == alignment * (position / alignment + 1)) by {
            assert(position == alignment * (position / alignment) + r);
            assert(alignment * (position / alignment + 1) == alignment * (position / alignment)
                + alignment) by (nonlinear_arith);
        }
    }
}

/// Immutable pair of the target byte order and the absolute byte offset of
/// the start of the current buffer within the overall message.
#[derive(Clone, Copy, Debug, PartialEq, Eq, Structural)]
pub struct EncodingContext {
    pub byte_order: ByteOrder,
    pub position: usize,
}

impl EncodingContext {
    pub fn new(byte_order: ByteOrder, position: usize) -> (r: Self)
        ensures
            r.byte_order == byte_order,
            r.position == position,
    {
        EncodingContext { byte_order, position }
    }

    /// The number of zero bytes needed before the next value so that its
    /// first byte lands on a multiple of `alignment` relative to the whole
    /// message, when `additional_offset` bytes have already been produced
    /// after this context's position.
    ///
    /// Computed modulo `alignment` throughout, so the sum
    /// `position + additional_offset` never has to fit in a machine word.
    pub fn padding_for(&self, alignment: usize, additional_offset: usize) -> (r: usize)
        requires
            1 <= alignment <= 8,
        ensures
            r == spec_padding(alignment as int, self.position + additional_offset),
    {
        let rem: usize = ((self.position % alignment) + (additional_offset % alignment))
            % alignment;
        proof {
            lemma_add_mod_noop(
                self.position as int,
                additional_offset as int,
                alignment as int,
            );
        }
        (alignment - rem) % alignment
    }
}

} // verus!
