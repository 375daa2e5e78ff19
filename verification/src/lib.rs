//! A type-driven binary marshaling layer for a D-Bus-style wire protocol.
//!
//! Every encodable type carries a one-character signature, a mandated
//! alignment, and exact encode/decode rules over byte buffers.  Decoding is
//! zero-copy: values are located inside a shared, immutable byte buffer
//! ([`SharedData`]) without copying the backing storage.
//!
//! On top of the generic codec, [`MatchRule`] implements the textual
//! match-rule grammar (`key='value',key='value',...`) used to subscribe to
//! bus messages.

pub mod codec_bytes;
pub mod encoding_context;
pub mod error;
pub mod match_rule;
pub mod shared_data;
pub mod strings;
pub mod variant;
pub mod variant_type;

pub use encoding_context::{ByteOrder, EncodingContext};
pub use error::VariantError;
pub use match_rule::{MatchRule, MatchRuleBuilder, MatchRulePathSpec, MessageType, OwnedMatchRule};
pub use shared_data::SharedData;
pub use strings::{ObjectPath, Signature};
pub use variant::Variant;
pub use variant_type::{SimpleVariantType, VariantType};
