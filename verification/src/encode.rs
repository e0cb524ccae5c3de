use vstd::prelude::*;
use crate::value::{
    lemma_value_round_trip, spec_decode, spec_encode, value_model_wf, Value, ValueModel,
};

verus! {

/// The compile-time mapping from a host scalar type into the backend's
/// supported wire values. A type may be bound as a parameter exactly when it
/// implements this trait, so an unsupported type is a compile error at the
/// bind site, never a runtime type mismatch; encoding itself is total.
pub trait Encode: Sized {
    /// The wire value this host value stands for.
    spec fn as_value(&self) -> ValueModel;

    /// Converts the host value into its wire value.
    fn to_value(self) -> (v: Value)
        ensures
            v@ == self.as_value(),
    ;
}

/// Round-trip law over the type mapping: for every supported scalar type,
/// decoding the wire encoding of a representable value yields exactly the
/// wire value that the type maps to — never a different value and never a
/// decode failure.
pub proof fn lemma_scalar_round_trip<T: Encode>(v: T)
    requires
        value_model_wf(v.as_value()),
    ensures
        spec_decode(spec_encode(v.as_value())) == Some(v.as_value()),
{
    lemma_value_round_trip(v.as_value());
}

impl Encode for bool {
    open spec fn as_value(&self) -> ValueModel {
        ValueModel::MBool(*self)
    }

    fn to_value(self) -> (v: Value) {
        Value::Bool(self)
    }
}

impl Encode for i32 {
    open spec fn as_value(&self) -> ValueModel {
        ValueModel::MInt4(*self)
    }

    fn to_value(self) -> (v: Value) {
        Value::Int4(self)
    }
}

impl Encode for i64 {
    open spec fn as_value(&self) -> ValueModel {
        ValueModel::MInt8(*self)
    }

    fn to_value(self) -> (v: Value) {
        Value::Int8(self)
    }
}

impl Encode for Vec<u8> {
    open spec fn as_value(&self) -> ValueModel {
        ValueModel::MBytes(self@)
    }

    fn to_value(self) -> (v: Value) {
        Value::Bytes(self)
    }
}

} // verus!
