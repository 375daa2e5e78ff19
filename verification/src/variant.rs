//! The closed tagged union over every supported type's concrete value.

use crate::strings::{ObjectPath, Signature};
use vstd::prelude::*;

verus! {

/// A decoded value.  The runtime tag always matches the signature character
/// of the type whose codec produced it: wrapping a concrete value
/// (`to_variant`) is total, while unwrapping (`take_from_variant` /
/// `from_variant`) fails with `IncorrectType` when the tag does not match.
#[derive(Debug)]
pub enum Variant {
    U32(u32),
    Str(String),
    ObjectPath(ObjectPath),
    Signature(Signature),
}

impl Clone for Variant {
    fn clone(&self) -> (res: Self)
        ensures
            res == *self,
    {
        match self {
            Variant::U32(v) => Variant::U32(*v),
            Variant::Str(s) => Variant::Str(s.clone()),
            Variant::ObjectPath(p) => Variant::ObjectPath(p.clone()),
            Variant::Signature(s) => Variant::Signature(s.clone()),
        }
    }
}

} // verus!
