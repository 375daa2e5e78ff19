//! The string-family codecs: plain strings, object paths, and signature
//! strings.
//!
//! Plain strings and object paths share one wire layout (alignment 4):
//! padding, a 32-bit byte-length field in the context's byte order, the
//! UTF-8 bytes, and one NUL terminator.  Signature strings use alignment 1
//! and a single length byte, so they are never padded and ignore the byte
//! order.

use crate::codec_bytes::{spec_u32_bytes, spec_u32_from_bytes, spec_zeros, u32_to_bytes,
    push_zeros};
use crate::encoding_context::{spec_padding, ByteOrder, EncodingContext};
use crate::error::VariantError;
use crate::shared_data::SharedData;
use crate::variant::Variant;
use crate::variant_type::{ensure_correct_signature, SimpleVariantType, VariantType};
use vstd::prelude::*;
use vstd::string::{StrSliceExecFns, StringSliceAdditionalSpecFns};
use vstd::utf8::{decode_utf8, encode_utf8, valid_utf8};

verus! {

broadcast use vstd::utf8::encode_utf8_valid_utf8, vstd::utf8::encode_utf8_decode_utf8;

/// The wire bytes of a padded, length-prefixed string whose UTF-8 content is
/// `content`: 32-bit length, content, NUL terminator.  Leading padding is
/// not part of the value's encoding.
pub open spec fn spec_str_encoding(content: Seq<u8>, order: ByteOrder) -> Seq<u8>
    recommends
        content.len() <= u32::MAX,
{
    spec_u32_bytes(content.len() as u32, order) + content + seq![0u8]
}

/// Length of the complete string value at the front of `data`, as promised
/// by its own length field.
pub open spec fn spec_str_slice_len(data: Seq<u8>, order: ByteOrder) -> int
    recommends
        data.len() >= 4,
{
    5 + spec_u32_from_bytes(data.subrange(0, 4), order)
}

/// Whether `data` holds a complete string value at its front.
pub open spec fn spec_str_slice_ok(data: Seq<u8>, order: ByteOrder) -> bool {
    data.len() >= 4 && data.len() >= spec_str_slice_len(data, order)
}

/// The UTF-8 content bytes of the string value at the front of `data`.
pub open spec fn spec_str_content(data: Seq<u8>, order: ByteOrder) -> Seq<u8>
    recommends
        spec_str_slice_ok(data, order),
{
    data.subrange(4, spec_str_slice_len(data, order) - 1)
}

/// Whether decoding the string value at the front of `data` succeeds.
pub open spec fn spec_str_decode_ok(data: Seq<u8>, order: ByteOrder) -> bool {
    spec_str_slice_ok(data, order) && valid_utf8(spec_str_content(data, order))
}

/// The error decoding the string value at the front of `data` reports.
pub open spec fn spec_str_decode_err(data: Seq<u8>, order: ByteOrder) -> VariantError
    recommends
        !spec_str_decode_ok(data, order),
{
    if !spec_str_slice_ok(data, order) {
        VariantError::InsufficientData
    } else {
        VariantError::InvalidUtf8
    }
}

/// The characters of the string value at the front of `data`.
pub open spec fn spec_str_decoded(data: Seq<u8>, order: ByteOrder) -> Seq<char>
    recommends
        spec_str_decode_ok(data, order),
{
    decode_utf8(spec_str_content(data, order))
}

/// The wire bytes of an unpadded, length-prefixed signature string: one
/// length byte, content, NUL terminator.
pub open spec fn spec_sig_encoding(content: Seq<u8>) -> Seq<u8>
    recommends
        content.len() <= 255,
{
    seq![content.len() as u8] + content + seq![0u8]
}

/// Length of the complete signature value at the front of `data`.
pub open spec fn spec_sig_slice_len(data: Seq<u8>) -> int
    recommends
        data.len() >= 1,
{
    2 + data[0]
}

/// Whether `data` holds a complete signature value at its front.
pub open spec fn spec_sig_slice_ok(data: Seq<u8>) -> bool {
    data.len() >= 1 && data.len() >= spec_sig_slice_len(data)
}

/// The UTF-8 content bytes of the signature value at the front of `data`.
pub open spec fn spec_sig_content(data: Seq<u8>) -> Seq<u8>
    recommends
        spec_sig_slice_ok(data),
{
    data.subrange(1, spec_sig_slice_len(data) - 1)
}

/// Whether decoding the signature value at the front of `data` succeeds.
pub open spec fn spec_sig_decode_ok(data: Seq<u8>) -> bool {
    spec_sig_slice_ok(data) && valid_utf8(spec_sig_content(data))
}

/// The error decoding the signature value at the front of `data` reports.
pub open spec fn spec_sig_decode_err(data: Seq<u8>) -> VariantError
    recommends
        !spec_sig_decode_ok(data),
{
    if !spec_sig_slice_ok(data) {
        VariantError::InsufficientData
    } else {
        VariantError::InvalidUtf8
    }
}

/// The characters of the signature value at the front of `data`.
pub open spec fn spec_sig_decoded(data: Seq<u8>) -> Seq<char>
    recommends
        spec_sig_decode_ok(data),
{
    decode_utf8(spec_sig_content(data))
}

/// Relies on str::from_utf8: it returns `Ok` exactly when the input is
/// valid UTF-8, and the resulting string slice borrows those same bytes.
#[verifier::external_body]
fn try_str_from_bytes(bytes: &[u8]) -> (r: Option<&str>)
    ensures
        r is Some <==> valid_utf8(bytes@),
        r matches Some(s) ==> s.spec_bytes() == bytes@,
{
    std::str::from_utf8(bytes).ok()
}

impl VariantType for String {
    open spec fn spec_signature_char() -> char {
        's'
    }

    open spec fn spec_alignment() -> int {
        4
    }

    open spec fn spec_wf(self) -> bool {
        encode_utf8(self@).len() <= u32::MAX
    }

    open spec fn spec_encoding(self, order: ByteOrder) -> Seq<u8> {
        spec_str_encoding(encode_utf8(self@), order)
    }

    open spec fn spec_slice_ok(data: Seq<u8>, order: ByteOrder) -> bool {
        spec_str_slice_ok(data, order)
    }

    open spec fn spec_slice_len(data: Seq<u8>, order: ByteOrder) -> int {
        spec_str_slice_len(data, order)
    }

    open spec fn spec_decode_ok(data: Seq<u8>, order: ByteOrder) -> bool {
        spec_str_decode_ok(data, order)
    }

    open spec fn spec_decode_err(data: Seq<u8>, order: ByteOrder) -> VariantError {
        spec_str_decode_err(data, order)
    }

    open spec fn spec_is_decoding_of(self, data: Seq<u8>, order: ByteOrder) -> bool {
        spec_str_decode_ok(data, order) && self@ == spec_str_decoded(data, order)
    }

    open spec fn spec_to_variant(self) -> Variant {
        Variant::Str(self)
    }

    open spec fn spec_is_tag_of(v: Variant) -> bool {
        v is Str
    }

    fn signature_char() -> char {
        's'
    }

    fn signature_str() -> (s: &'static str) {
        let s = "s";
        proof {
            reveal_strlit("s");
            assert(s@ =~= seq!['s']);
        }
        s
    }

    fn alignment() -> usize {
        4
    }

    fn encode_into(&self, bytes: &mut Vec<u8>, context: EncodingContext) {
        let pad = context.padding_for(4, bytes.len());
        push_zeros(bytes, pad);
        let content = self.as_str().as_bytes();
        let len_bytes = u32_to_bytes(content.len() as u32, context.byte_order);
        bytes.extend_from_slice(len_bytes.as_slice());
        bytes.extend_from_slice(content);
        bytes.push(0u8);
        proof {
            assert(final(bytes)@ =~= old(bytes)@ + spec_zeros(pad as int)
                + spec_str_encoding(encode_utf8(self@), context.byte_order));
        }
    }

    fn slice_data(data: &SharedData, signature: &str, context: EncodingContext) -> (r: Result<
        SharedData,
        VariantError,
    >) {
        ensure_correct_signature(signature, 's')?;
        let len_slice = u32::slice_data_simple(data, context)?;
        let len = u32::decode_simple(&len_slice, context)?;
        proof {
            assert(data@.subrange(0, 4).subrange(0, 4) =~= data@.subrange(0, 4));
        }
        let total = data.len();
        if total < 5 || (len as usize) > total - 5 {
            return Err(VariantError::InsufficientData);
        }
        data.head((len as usize) + 5)
    }

    fn decode(data: &SharedData, signature: &str, context: EncodingContext) -> (r: Result<
        Self,
        VariantError,
    >) {
        let slice = Self::slice_data(data, signature, context)?;
        let b = slice.bytes();
        let n = b.len();
        let content = vstd::slice::slice_subrange(b, 4, n - 1);
        proof {
            assert(content@ =~= spec_str_content(data@, context.byte_order));
        }
        match try_str_from_bytes(content) {
            Some(s) => {
                let owned = s.to_owned();
                proof {
                    assert(decode_utf8(encode_utf8(owned@)) == owned@);
                }
                Ok(owned)
            },
            None => Err(VariantError::InvalidUtf8),
        }
    }

    fn is(variant: &Variant) -> bool {
        if let Variant::Str(_) = variant {
            true
        } else {
            false
        }
    }

    fn take_from_variant(variant: Variant) -> Result<Self, VariantError> {
        if let Variant::Str(value) = variant {
            Ok(value)
        } else {
            Err(VariantError::IncorrectType)
        }
    }

    fn from_variant(variant: &Variant) -> Result<&Self, VariantError> {
        if let Variant::Str(value) = variant {
            Ok(value)
        } else {
            Err(VariantError::IncorrectType)
        }
    }

    fn to_variant(self) -> Variant {
        Variant::Str(self)
    }
}

impl SimpleVariantType for String {}

/// A D-Bus object path: non-empty, `/`-rooted, with no empty path elements
/// and no trailing slash except for the root path itself.
///
/// The path syntax is enforced at construction ([`ObjectPath::new`] requires
/// a valid path) and again at decode, which rejects malformed wire text with
/// `IncorrectType`.  The byte layout is identical to a plain string's.
#[derive(Debug)]
pub struct ObjectPath(String);

/// Whether `s` is a syntactically valid object path.
pub open spec fn is_valid_object_path(s: Seq<char>) -> bool {
    &&& s.len() >= 1
    &&& s[0] == '/'
    &&& (s.len() == 1 || s[s.len() - 1] != '/')
    &&& forall|i: int| 0 < i < s.len() ==> !(s[i - 1] == '/' && #[trigger] s[i] == '/')
}

impl View for ObjectPath {
    type V = Seq<char>;

    closed spec fn view(&self) -> Seq<char> {
        self.0@
    }
}

impl DeepView for ObjectPath {
    type V = Seq<char>;

    open spec fn deep_view(&self) -> Seq<char> {
        self@
    }
}

impl Clone for ObjectPath {
    fn clone(&self) -> (res: Self)
        ensures
            res == *self,
    {
        ObjectPath(self.0.clone())
    }
}

impl ObjectPath {
    /// Wrap a syntactically valid object path.
    pub fn new(path: &str) -> (r: Self)
        requires
            is_valid_object_path(path@),
        ensures
            r@ == path@,
    {
        ObjectPath(path.to_owned())
    }

    /// The path's text.
    pub fn as_str(&self) -> (r: &str)
        ensures
            r@ == self@,
    {
        self.0.as_str()
    }
}

/// Whether `path` is a syntactically valid object path.
pub fn object_path_is_valid(path: &str) -> (r: bool)
    ensures
        r == is_valid_object_path(path@),
{
    let n = path.unicode_len();
    if n == 0 {
        return false;
    }
    if path.get_char(0) != '/' {
        return false;
    }
    if n > 1 && path.get_char(n - 1) == '/' {
        return false;
    }
    let mut i: usize = 1;
    while i < n
        invariant
            1 <= i <= n,
            n == path@.len(),
            forall|j: int| 0 < j < i ==> !(path@[j - 1] == '/' && #[trigger] path@[j] == '/'),
        decreases n - i,
    {
        if path.get_char(i - 1) == '/' && path.get_char(i) == '/' {
            return false;
        }
        i = i + 1;
    }
    true
}

/// Whether decoding the object-path value at the front of `data`
/// succeeds: the bytes of a string value whose text is a syntactically
/// valid path.
pub open spec fn spec_path_decode_ok(data: Seq<u8>, order: ByteOrder) -> bool {
    spec_str_decode_ok(data, order) && is_valid_object_path(spec_str_decoded(data, order))
}

/// The error decoding the object-path value at the front of `data`
/// reports: string-codec failures first, then `IncorrectType` for text
/// that is not a valid path.
pub open spec fn spec_path_decode_err(data: Seq<u8>, order: ByteOrder) -> VariantError
    recommends
        !spec_path_decode_ok(data, order),
{
    if !spec_str_decode_ok(data, order) {
        spec_str_decode_err(data, order)
    } else {
        VariantError::IncorrectType
    }
}

impl VariantType for ObjectPath {
    open spec fn spec_signature_char() -> char {
        'o'
    }

    open spec fn spec_alignment() -> int {
        4
    }

    open spec fn spec_wf(self) -> bool {
        encode_utf8(self@).len() <= u32::MAX
    }

    open spec fn spec_encoding(self, order: ByteOrder) -> Seq<u8> {
        spec_str_encoding(encode_utf8(self@), order)
    }

    open spec fn spec_slice_ok(data: Seq<u8>, order: ByteOrder) -> bool {
        spec_str_slice_ok(data, order)
    }

    open spec fn spec_slice_len(data: Seq<u8>, order: ByteOrder) -> int {
        spec_str_slice_len(data, order)
    }

    open spec fn spec_decode_ok(data: Seq<u8>, order: ByteOrder) -> bool {
        spec_path_decode_ok(data, order)
    }

    open spec fn spec_decode_err(data: Seq<u8>, order: ByteOrder) -> VariantError {
        spec_path_decode_err(data, order)
    }

    open spec fn spec_is_decoding_of(self, data: Seq<u8>, order: ByteOrder) -> bool {
        spec_path_decode_ok(data, order) && self@ == spec_str_decoded(data, order)
    }

    open spec fn spec_to_variant(self) -> Variant {
        Variant::ObjectPath(self)
    }

    open spec fn spec_is_tag_of(v: Variant) -> bool {
        v is ObjectPath
    }

    fn signature_char() -> char {
        'o'
    }

    fn signature_str() -> (s: &'static str) {
        let s = "o";
        proof {
            reveal_strlit("o");
            assert(s@ =~= seq!['o']);
        }
        s
    }

    fn alignment() -> usize {
        4
    }

    fn encode_into(&self, bytes: &mut Vec<u8>, context: EncodingContext) {
        self.0.encode_into(bytes, context);
    }

    fn slice_data(data: &SharedData, signature: &str, context: EncodingContext) -> (r: Result<
        SharedData,
        VariantError,
    >) {
        ensure_correct_signature(signature, 'o')?;
        String::slice_data_simple(data, context)
    }

    fn decode(data: &SharedData, signature: &str, context: EncodingContext) -> (r: Result<
        Self,
        VariantError,
    >) {
        ensure_correct_signature(signature, 'o')?;
        match String::decode(data, String::signature_str(), context) {
            Ok(s) => {
                if object_path_is_valid(s.as_str()) {
                    Ok(ObjectPath(s))
                } else {
                    Err(VariantError::IncorrectType)
                }
            },
            Err(e) => Err(e),
        }
    }

    fn is(variant: &Variant) -> bool {
        if let Variant::ObjectPath(_) = variant {
            true
        } else {
            false
        }
    }

    fn take_from_variant(variant: Variant) -> Result<Self, VariantError> {
        if let Variant::ObjectPath(value) = variant {
            Ok(value)
        } else {
            Err(VariantError::IncorrectType)
        }
    }

    fn from_variant(variant: &Variant) -> Result<&Self, VariantError> {
        if let Variant::ObjectPath(value) = variant {
            Ok(value)
        } else {
            Err(VariantError::IncorrectType)
        }
    }

    fn to_variant(self) -> Variant {
        Variant::ObjectPath(self)
    }
}

impl SimpleVariantType for ObjectPath {}

/// A signature string: a string of one-character type codes, always encoded
/// unpadded with a single length byte.
#[derive(Debug)]
pub struct Signature(String);

/// Whether `s` can be carried as a signature on the wire: non-empty,
/// NUL-free, and at most 255 bytes of UTF-8.
pub open spec fn is_valid_signature_str(s: Seq<char>) -> bool {
    &&& s.len() >= 1
    &&& vstd::utf8::encode_utf8(s).len() <= 255
    &&& forall|i: int| 0 <= i < s.len() ==> #[trigger] s[i] != '\0'
}

impl View for Signature {
    type V = Seq<char>;

    closed spec fn view(&self) -> Seq<char> {
        self.0@
    }
}

impl DeepView for Signature {
    type V = Seq<char>;

    open spec fn deep_view(&self) -> Seq<char> {
        self@
    }
}

impl Clone for Signature {
    fn clone(&self) -> (res: Self)
        ensures
            res == *self,
    {
        Signature(self.0.clone())
    }
}

impl Signature {
    /// Wrap a representable signature string.
    pub fn new(signature: &str) -> (r: Self)
        requires
            is_valid_signature_str(signature@),
        ensures
            r@ == signature@,
    {
        Signature(signature.to_owned())
    }

    /// The signature's text.
    pub fn as_str(&self) -> (r: &str)
        ensures
            r@ == self@,
    {
        self.0.as_str()
    }
}

/// Whether `signature` can be carried as a signature value on the wire.
pub fn signature_str_is_valid(signature: &str) -> (r: bool)
    ensures
        r == is_valid_signature_str(signature@),
{
    let n = signature.unicode_len();
    if n == 0 || signature.as_bytes().len() > 255 {
        return false;
    }
    let mut i: usize = 0;
    while i < n
        invariant
            0 <= i <= n,
            n == signature@.len(),
            forall|j: int| 0 <= j < i ==> #[trigger] signature@[j] != '\0',
        decreases n - i,
    {
        if signature.get_char(i) == '\0' {
            return false;
        }
        i = i + 1;
    }
    true
}

impl VariantType for Signature {
    open spec fn spec_signature_char() -> char {
        'g'
    }

    open spec fn spec_alignment() -> int {
        1
    }

    open spec fn spec_wf(self) -> bool {
        encode_utf8(self@).len() <= 255
    }

    open spec fn spec_encoding(self, order: ByteOrder) -> Seq<u8> {
        spec_sig_encoding(encode_utf8(self@))
    }

    open spec fn spec_slice_ok(data: Seq<u8>, order: ByteOrder) -> bool {
        spec_sig_slice_ok(data)
    }

    open spec fn spec_slice_len(data: Seq<u8>, order: ByteOrder) -> int {
        spec_sig_slice_len(data)
    }

    open spec fn spec_decode_ok(data: Seq<u8>, order: ByteOrder) -> bool {
        spec_sig_decode_ok(data)
    }

    open spec fn spec_decode_err(data: Seq<u8>, order: ByteOrder) -> VariantError {
        spec_sig_decode_err(data)
    }

    open spec fn spec_is_decoding_of(self, data: Seq<u8>, order: ByteOrder) -> bool {
        spec_sig_decode_ok(data) && self@ == spec_sig_decoded(data)
    }

    open spec fn spec_to_variant(self) -> Variant {
        Variant::Signature(self)
    }

    open spec fn spec_is_tag_of(v: Variant) -> bool {
        v is Signature
    }

    fn signature_char() -> char {
        'g'
    }

    fn signature_str() -> (s: &'static str) {
        let s = "g";
        proof {
            reveal_strlit("g");
            assert(s@ =~= seq!['g']);
        }
        s
    }

    fn alignment() -> usize {
        1
    }

    // A signature value has 1-byte alignment, so no padding is ever
    // inserted and the context's byte order is irrelevant to it.
    fn encode_into(&self, bytes: &mut Vec<u8>, context: EncodingContext) {
        let pad = context.padding_for(1, bytes.len());
        proof {
            crate::encoding_context::lemma_padding_aligns(
                1,
                context.position + old(bytes)@.len(),
            );
        }
        let content = self.0.as_str().as_bytes();
        bytes.push(content.len() as u8);
        bytes.extend_from_slice(content);
        bytes.push(0u8);
        proof {
            assert(final(bytes)@ =~= old(bytes)@ + spec_zeros(pad as int)
                + spec_sig_encoding(encode_utf8(self@)));
        }
    }

    fn slice_data(data: &SharedData, signature: &str, context: EncodingContext) -> (r: Result<
        SharedData,
        VariantError,
    >) {
        ensure_correct_signature(signature, 'g')?;
        if data.len() < 1 {
            return Err(VariantError::InsufficientData);
        }
        let b = data.bytes();
        let last_index = (b[0] as usize) + 2;
        data.head(last_index)
    }

    fn decode(data: &SharedData, signature: &str, context: EncodingContext) -> (r: Result<
        Self,
        VariantError,
    >) {
        let slice = Self::slice_data(data, signature, context)?;
        let b = slice.bytes();
        let n = b.len();
        let content = vstd::slice::slice_subrange(b, 1, n - 1);
        proof {
            assert(content@ =~= spec_sig_content(data@));
        }
        match try_str_from_bytes(content) {
            Some(s) => {
                let owned = Signature(s.to_owned());
                proof {
                    assert(decode_utf8(encode_utf8(owned@)) == owned@);
                }
                Ok(owned)
            },
            None => Err(VariantError::InvalidUtf8),
        }
    }

    fn is(variant: &Variant) -> bool {
        if let Variant::Signature(_) = variant {
            true
        } else {
            false
        }
    }

    fn take_from_variant(variant: Variant) -> Result<Self, VariantError> {
        if let Variant::Signature(value) = variant {
            Ok(value)
        } else {
            Err(VariantError::IncorrectType)
        }
    }

    fn from_variant(variant: &Variant) -> Result<&Self, VariantError> {
        if let Variant::Signature(value) = variant {
            Ok(value)
        } else {
            Err(VariantError::IncorrectType)
        }
    }

    fn to_variant(self) -> Variant {
        Variant::Signature(self)
    }
}

impl SimpleVariantType for Signature {}

/// Round trip: decoding the encoding of any string value yields the same
/// characters.  This covers the padded length-prefixed layout shared by the
/// plain-string and object-path codecs, whose `spec_encoding`,
/// `spec_decode_ok` and `spec_is_decoding_of` all reduce to the functions
/// related here.
pub proof fn lemma_str_round_trip(s: Seq<char>, order: ByteOrder)
    requires
        encode_utf8(s).len() <= u32::MAX,
    ensures
        spec_str_decode_ok(spec_str_encoding(encode_utf8(s), order), order),
        spec_str_decoded(spec_str_encoding(encode_utf8(s), order), order) == s,
{
    let content = encode_utf8(s);
    let enc = spec_str_encoding(content, order);
    crate::codec_bytes::lemma_u32_bytes_round_trip(
        content.len() as u32,
        seq![0u8, 0u8, 0u8, 0u8],
        order,
    );
    assert(enc.subrange(0, 4) =~= spec_u32_bytes(content.len() as u32, order));
    assert(spec_str_slice_len(enc, order) == 5 + content.len());
    assert(spec_str_content(enc, order) =~= content);
}

/// Round trip: decoding the encoding of any syntactically valid object
/// path yields the same characters.
pub proof fn lemma_path_round_trip(s: Seq<char>, order: ByteOrder)
    requires
        encode_utf8(s).len() <= u32::MAX,
        is_valid_object_path(s),
    ensures
        spec_path_decode_ok(spec_str_encoding(encode_utf8(s), order), order),
        spec_str_decoded(spec_str_encoding(encode_utf8(s), order), order) == s,
{
    lemma_str_round_trip(s, order);
}

/// Round trip: decoding the encoding of any signature value within the
/// 255-byte length bound yields the same characters.
pub proof fn lemma_sig_round_trip(s: Seq<char>)
    requires
        encode_utf8(s).len() <= 255,
    ensures
        spec_sig_decode_ok(spec_sig_encoding(encode_utf8(s))),
        spec_sig_decoded(spec_sig_encoding(encode_utf8(s))) == s,
{
    let content = encode_utf8(s);
    let enc = spec_sig_encoding(content);
    assert(enc[0] == content.len() as u8);
    assert(spec_sig_slice_len(enc) == 2 + content.len());
    assert(spec_sig_content(enc) =~= content);
}

/// Truncation: a valid string encoding with its final byte removed fails to
/// decode with `InsufficientData`.
pub proof fn lemma_str_truncation_fails(content: Seq<u8>, order: ByteOrder)
    requires
        content.len() <= u32::MAX,
    ensures
        ({
            let enc = spec_str_encoding(content, order);
            let truncated = enc.take(enc.len() - 1);
            &&& !spec_str_decode_ok(truncated, order)
            &&& spec_str_decode_err(truncated, order) == VariantError::InsufficientData
        }),
{
    let enc = spec_str_encoding(content, order);
    let truncated = enc.take(enc.len() - 1);
    crate::codec_bytes::lemma_u32_bytes_round_trip(
        content.len() as u32,
        seq![0u8, 0u8, 0u8, 0u8],
        order,
    );
    assert(truncated.subrange(0, 4) =~= spec_u32_bytes(content.len() as u32, order));
    assert(spec_str_slice_len(truncated, order) == 5 + content.len());
    assert(truncated.len() == 4 + content.len());
}

/// Truncation: a valid signature encoding with its final byte removed fails
/// to decode with `InsufficientData`.
pub proof fn lemma_sig_truncation_fails(content: Seq<u8>)
    requires
        content.len() <= 255,
    ensures
        ({
            let enc = spec_sig_encoding(content);
            let truncated = enc.take(enc.len() - 1);
            &&& !spec_sig_decode_ok(truncated)
            &&& spec_sig_decode_err(truncated) == VariantError::InsufficientData
        }),
{
    let enc = spec_sig_encoding(content);
    let truncated = enc.take(enc.len() - 1);
    assert(truncated[0] == content.len() as u8);
    assert(spec_sig_slice_len(truncated) == 2 + content.len());
    assert(truncated.len() == 1 + content.len());
}

/// Replacing the content of a string encoding with bytes that are not valid
/// UTF-8, keeping the length field consistent, makes decoding fail with
/// `InvalidUtf8`.
pub proof fn lemma_str_invalid_utf8_fails(content: Seq<u8>, order: ByteOrder)
    requires
        content.len() <= u32::MAX,
        !valid_utf8(content),
    ensures
        !spec_str_decode_ok(spec_str_encoding(content, order), order),
        spec_str_decode_err(spec_str_encoding(content, order), order)
            == VariantError::InvalidUtf8,
{
    let enc = spec_str_encoding(content, order);
    crate::codec_bytes::lemma_u32_bytes_round_trip(
        content.len() as u32,
        seq![0u8, 0u8, 0u8, 0u8],
        order,
    );
    assert(enc.subrange(0, 4) =~= spec_u32_bytes(content.len() as u32, order));
    assert(spec_str_slice_len(enc, order) == 5 + content.len());
    assert(spec_str_content(enc, order) =~= content);
}

/// Replacing the content of a signature encoding with bytes that are not
/// valid UTF-8, keeping the length byte consistent, makes decoding fail
/// with `InvalidUtf8`.
pub proof fn lemma_sig_invalid_utf8_fails(content: Seq<u8>)
    requires
        content.len() <= 255,
        !valid_utf8(content),
    ensures
        !spec_sig_decode_ok(spec_sig_encoding(content)),
        spec_sig_decode_err(spec_sig_encoding(content)) == VariantError::InvalidUtf8,
{
    let enc = spec_sig_encoding(content);
    assert(enc[0] == content.len() as u8);
    assert(spec_sig_slice_len(enc) == 2 + content.len());
    assert(spec_sig_content(enc) =~= content);
}

} // verus!
