//! The failure modes shared by all codecs.

use vstd::prelude::*;

verus! {

/// Decode/type failures surfaced by every codec.  No recovery happens inside
/// the codec; every failure is returned to the caller, and a failed decode
/// never mutates the source buffer.
#[derive(Clone, Copy, Debug, PartialEq, Eq, Structural)]
pub enum VariantError {
    /// The signature string does not match the type being decoded, or a
    /// `Variant`'s runtime tag does not match the type requested on unwrap.
    IncorrectType,
    /// The decoded byte span for a textual value is not valid UTF-8.
    InvalidUtf8,
    /// The buffer is shorter than the length a value's own header claims, or
    /// shorter than the minimum header size.
    InsufficientData,
    /// A malformed signature: unknown type-codes, or a signature string that
    /// cannot be represented on the wire (empty, longer than 255 bytes, or
    /// containing a NUL).
    IncorrectSignature,
    /// Trailing bytes remain after a decode that should have consumed the
    /// whole buffer.
    ExcessData,
}

} // verus!
