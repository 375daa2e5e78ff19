//! The trait every encodable/decodable type implements, the marker trait for
//! simple (leaf) types, and the 32-bit scalar codec that length-prefixed
//! string types delegate to.

use crate::codec_bytes::{spec_u32_bytes, spec_u32_from_bytes, spec_zeros, u32_from_bytes,
    u32_to_bytes, push_zeros};
use crate::encoding_context::{spec_padding, ByteOrder, EncodingContext};
use crate::error::VariantError;
use crate::shared_data::SharedData;
use crate::variant::Variant;
use vstd::prelude::*;
use vstd::string::StrSliceExecFns;

verus! {

/// The contract every wire type implements.
///
/// A type's codec knows its one-character signature, its alignment, how to
/// append its padded encoding to an output buffer, how to locate the exact
/// sub-range of a buffer holding one encoded value without interpreting it
/// (`slice_data`), and how to fully decode that value (`decode`).  The
/// `spec_*` functions are the mathematical model each implementation pins
/// down; the executable methods are specified against them.
pub trait VariantType: Sized {
    /// The one-character type code.
    spec fn spec_signature_char() -> char;

    /// Required byte alignment (1, 2, 4, or 8) of the value's first byte,
    /// relative to the whole message.
    spec fn spec_alignment() -> int;

    /// Whether this value is representable on the wire (for example, a
    /// string's byte length must fit its length field).
    spec fn spec_wf(self) -> bool;

    /// The value's encoded bytes, without leading padding.
    spec fn spec_encoding(self, order: ByteOrder) -> Seq<u8>;

    /// Whether `data` starts with a complete encoded value of this type.
    spec fn spec_slice_ok(data: Seq<u8>, order: ByteOrder) -> bool;

    /// Length in bytes of the encoded value at the front of `data`.
    spec fn spec_slice_len(data: Seq<u8>, order: ByteOrder) -> int;

    /// Whether decoding the value at the front of `data` succeeds.
    spec fn spec_decode_ok(data: Seq<u8>, order: ByteOrder) -> bool;

    /// The error reported when decoding fails with a matching signature.
    spec fn spec_decode_err(data: Seq<u8>, order: ByteOrder) -> VariantError;

    /// Whether `self` is the value encoded at the front of `data`.  Each
    /// implementation pins the value down exactly.
    spec fn spec_is_decoding_of(self, data: Seq<u8>, order: ByteOrder) -> bool;

    /// The variant wrapping `self`.
    spec fn spec_to_variant(self) -> Variant;

    /// Whether the variant's tag belongs to this type.
    spec fn spec_is_tag_of(v: Variant) -> bool;

    /// The one-character type code.
    fn signature_char() -> (c: char)
        ensures
            c == Self::spec_signature_char(),
    ;

    /// The type code as a string.
    fn signature_str() -> (s: &'static str)
        ensures
            s@ == seq![Self::spec_signature_char()],
    ;

    /// Required byte alignment of this type's first byte.
    fn alignment() -> (a: usize)
        ensures
            a == Self::spec_alignment(),
            1 <= Self::spec_alignment() <= 8,
    ;

    /// Append this value's padding, then its encoded bytes, to `bytes`.
    /// Deterministic and byte-exact for the same value and context.
    fn encode_into(&self, bytes: &mut Vec<u8>, context: EncodingContext)
        requires
            self.spec_wf(),
        ensures
            final(bytes)@ == old(bytes)@ + spec_zeros(
                spec_padding(Self::spec_alignment(), context.position + old(bytes)@.len()),
            ) + self.spec_encoding(context.byte_order),
    ;

    /// The minimal prefix of `data` that is the complete encoding of one
    /// value of this type, as a zero-copy view.  Validates `signature`
    /// first, then that sufficient bytes exist.
    fn slice_data(data: &SharedData, signature: &str, context: EncodingContext) -> (r: Result<
        SharedData,
        VariantError,
    >)
        ensures
            signature@ != seq![Self::spec_signature_char()] ==> r == Err::<
                SharedData,
                VariantError,
            >(VariantError::IncorrectType),
            signature@ == seq![Self::spec_signature_char()] ==> match r {
                Ok(sd) => {
                    &&& Self::spec_slice_ok(data@, context.byte_order)
                    &&& sd@ == data@.subrange(
                        0,
                        Self::spec_slice_len(data@, context.byte_order),
                    )
                    &&& sd.storage() == data.storage()
                    &&& sd.spec_start() == data.spec_start()
                },
                Err(e) => {
                    &&& !Self::spec_slice_ok(data@, context.byte_order)
                    &&& e == VariantError::InsufficientData
                },
            },
    ;

    /// Fully decode the value at the front of `data`.
    fn decode(data: &SharedData, signature: &str, context: EncodingContext) -> (r: Result<
        Self,
        VariantError,
    >)
        ensures
            signature@ != seq![Self::spec_signature_char()] ==> r == Err::<Self, VariantError>(
                VariantError::IncorrectType,
            ),
            signature@ == seq![Self::spec_signature_char()] ==> match r {
                Ok(v) => {
                    &&& Self::spec_decode_ok(data@, context.byte_order)
                    &&& v.spec_is_decoding_of(data@, context.byte_order)
                },
                Err(e) => {
                    &&& !Self::spec_decode_ok(data@, context.byte_order)
                    &&& e == Self::spec_decode_err(data@, context.byte_order)
                },
            },
    ;

    /// Whether the variant holds a value of this type.
    fn is(variant: &Variant) -> (b: bool)
        ensures
            b == Self::spec_is_tag_of(*variant),
    ;

    /// Unwrap, consuming the variant; fails with `IncorrectType` on a tag
    /// mismatch.
    fn take_from_variant(variant: Variant) -> (r: Result<Self, VariantError>)
        ensures
            match r {
                Ok(v) => Self::spec_is_tag_of(variant) && v.spec_to_variant() == variant,
                Err(e) => !Self::spec_is_tag_of(variant) && e == VariantError::IncorrectType,
            },
    ;

    /// Borrow the wrapped value; fails with `IncorrectType` on a tag
    /// mismatch.
    fn from_variant(variant: &Variant) -> (r: Result<&Self, VariantError>)
        ensures
            match r {
                Ok(v) => Self::spec_is_tag_of(*variant) && (*v).spec_to_variant() == *variant,
                Err(e) => !Self::spec_is_tag_of(*variant) && e == VariantError::IncorrectType,
            },
    ;

    /// Wrap this value; total.
    fn to_variant(self) -> (v: Variant)
        ensures
            v == self.spec_to_variant(),
    ;
}

/// Alignment invariant: whatever the context position and however many
/// bytes the output buffer already holds, the first byte of a value's
/// encoding (its payload, after the padding `encode_into` inserts) lands on
/// a multiple of its type's alignment, relative to the whole message.
pub proof fn lemma_encode_payload_aligned<T: VariantType>(position: int, buffered: int)
    requires
        T::spec_alignment() >= 1,
        position >= 0,
        buffered >= 0,
    ensures
        (position + buffered + spec_padding(T::spec_alignment(), position + buffered))
            % T::spec_alignment() == 0,
{
    crate::encoding_context::lemma_padding_aligns(T::spec_alignment(), position + buffered);
}

/// Validate that `signature` is exactly the one-character code `c`.
pub fn ensure_correct_signature(signature: &str, c: char) -> (r: Result<(), VariantError>)
    ensures
        r == Ok::<(), VariantError>(()) <==> signature@ == seq![c],
        r is Err ==> r == Err::<(), VariantError>(VariantError::IncorrectType),
{
    if signature.unicode_len() == 1 && signature.get_char(0) == c {
        proof {
            assert(signature@ =~= seq![c]);
        }
        Ok(())
    } else {
        proof {
            if signature@ == seq![c] {
                assert(signature@.len() == 1);
                assert(signature@[0] == c);
            }
        }
        Err(VariantError::IncorrectType)
    }
}

/// Marker for leaf types, whose signature is a single code with no embedded
/// sub-signature.  The helpers locate and decode a value without an
/// externally supplied signature, since a simple type's signature is implied
/// by the type itself.
pub trait SimpleVariantType: VariantType {
    /// Like `slice_data`, with the type's own signature.
    fn slice_data_simple(data: &SharedData, context: EncodingContext) -> (r: Result<
        SharedData,
        VariantError,
    >)
        ensures
            match r {
                Ok(sd) => {
                    &&& Self::spec_slice_ok(data@, context.byte_order)
                    &&& sd@ == data@.subrange(
                        0,
                        Self::spec_slice_len(data@, context.byte_order),
                    )
                    &&& sd.storage() == data.storage()
                    &&& sd.spec_start() == data.spec_start()
                },
                Err(e) => {
                    &&& !Self::spec_slice_ok(data@, context.byte_order)
                    &&& e == VariantError::InsufficientData
                },
            },
    {
        Self::slice_data(data, Self::signature_str(), context)
    }

    /// Like `decode`, with the type's own signature.
    fn decode_simple(data: &SharedData, context: EncodingContext) -> (r: Result<
        Self,
        VariantError,
    >)
        ensures
            match r {
                Ok(v) => {
                    &&& Self::spec_decode_ok(data@, context.byte_order)
                    &&& v.spec_is_decoding_of(data@, context.byte_order)
                },
                Err(e) => {
                    &&& !Self::spec_decode_ok(data@, context.byte_order)
                    &&& e == Self::spec_decode_err(data@, context.byte_order)
                },
            },
    {
        Self::decode(data, Self::signature_str(), context)
    }
}

impl VariantType for u32 {
    open spec fn spec_signature_char() -> char {
        'u'
    }

    open spec fn spec_alignment() -> int {
        4
    }

    open spec fn spec_wf(self) -> bool {
        true
    }

    open spec fn spec_encoding(self, order: ByteOrder) -> Seq<u8> {
        spec_u32_bytes(self, order)
    }

    open spec fn spec_slice_ok(data: Seq<u8>, order: ByteOrder) -> bool {
        data.len() >= 4
    }

    open spec fn spec_slice_len(data: Seq<u8>, order: ByteOrder) -> int {
        4
    }

    open spec fn spec_decode_ok(data: Seq<u8>, order: ByteOrder) -> bool {
        data.len() >= 4
    }

    open spec fn spec_decode_err(data: Seq<u8>, order: ByteOrder) -> VariantError {
        VariantError::InsufficientData
    }

    open spec fn spec_is_decoding_of(self, data: Seq<u8>, order: ByteOrder) -> bool {
        data.len() >= 4 && self == spec_u32_from_bytes(data.subrange(0, 4), order)
    }

    open spec fn spec_to_variant(self) -> Variant {
        Variant::U32(self)
    }

    open spec fn spec_is_tag_of(v: Variant) -> bool {
        v is U32
    }

    fn signature_char() -> char {
        'u'
    }

    fn signature_str() -> (s: &'static str) {
        let s = "u";
        proof {
            reveal_strlit("u");
            assert(s@ =~= seq!['u']);
        }
        s
    }

    fn alignment() -> usize {
        4
    }

    fn encode_into(&self, bytes: &mut Vec<u8>, context: EncodingContext) {
        let pad = context.padding_for(4, bytes.len());
        push_zeros(bytes, pad);
        let encoded = u32_to_bytes(*self, context.byte_order);
        bytes.extend_from_slice(encoded.as_slice());
        proof {
            assert(final(bytes)@ =~= old(bytes)@ + spec_zeros(pad as int) + encoded@);
        }
    }

    fn slice_data(data: &SharedData, signature: &str, context: EncodingContext) -> (r: Result<
        SharedData,
        VariantError,
    >) {
        ensure_correct_signature(signature, 'u')?;
        data.head(4)
    }

    fn decode(data: &SharedData, signature: &str, context: EncodingContext) -> (r: Result<
        Self,
        VariantError,
    >) {
        ensure_correct_signature(signature, 'u')?;
        let slice = data.head(4)?;
        let b = slice.bytes();
        Ok(u32_from_bytes(b, context.byte_order))
    }

    fn is(variant: &Variant) -> bool {
        if let Variant::U32(_) = variant {
            true
        } else {
            false
        }
    }

    fn take_from_variant(variant: Variant) -> Result<Self, VariantError> {
        if let Variant::U32(value) = variant {
            Ok(value)
        } else {
            Err(VariantError::IncorrectType)
        }
    }

    fn from_variant(variant: &Variant) -> Result<&Self, VariantError> {
        if let Variant::U32(value) = variant {
            Ok(value)
        } else {
            Err(VariantError::IncorrectType)
        }
    }

    fn to_variant(self) -> Variant {
        Variant::U32(self)
    }
}

impl SimpleVariantType for u32 {}

} // verus!
