//! The values of a `Result` on either side of the boundary.
//!
//! What crosses is one record: a flag that tells the branch, and a payload
//! that holds the value of either branch. This is what the rendered
//! conversions do to a value, stated over the values themselves: for no
//! value the payload is the null pointer, for a declared type the pointer to
//! the value, for a primitive the value itself, and for a `Result` its own
//! record.

use vstd::prelude::*;
use crate::bridged_type::bridgeable_result::BuiltInResult;
use crate::bridged_type::BridgedType;

verus! {

/// A value on the host's side: no value, the bits of a primitive, a value
/// of a declared type, known by the address at which it lives, or a
/// `Result` of such values.
#[derive(Debug, PartialEq, Eq)]
pub enum HostValue {
    Null,
    Primitive(u64),
    Opaque(usize),
    Result(Box<Result<HostValue, HostValue>>),
}

/// What the payload of a record holds.
#[derive(Debug, PartialEq, Eq)]
pub enum Payload {
    Pointer(usize),
    Primitive(u64),
    Record(Box<ResultRecord>),
}

/// The record that crosses the boundary.
#[derive(Debug, PartialEq, Eq)]
pub struct ResultRecord {
    pub is_ok: bool,
    pub ok_or_err: Payload,
}

/// What of `value` goes into a payload.
pub open spec fn payload_of(value: HostValue) -> Payload
    decreases value, 0nat,
{
    match value {
        HostValue::Null => Payload::Pointer(0),
        HostValue::Primitive(bits) => Payload::Primitive(bits),
        HostValue::Opaque(address) => Payload::Pointer(address),
        HostValue::Result(result) => Payload::Record(Box::new(record_of(*result))),
    }
}

/// The record that carries `value` over the boundary.
pub open spec fn record_of(value: Result<HostValue, HostValue>) -> ResultRecord
    decreases value, 1nat,
{
    match value {
        Ok(ok) => ResultRecord { is_ok: true, ok_or_err: payload_of(ok) },
        Err(err) => ResultRecord { is_ok: false, ok_or_err: payload_of(err) },
    }
}

impl BridgedType {
    /// Whether `value` is a value of this type.
    pub open spec fn holds(self, value: HostValue) -> bool
        decreases self,
    {
        match self {
            BridgedType::Null => value is Null,
            BridgedType::Primitive(_) => value is Primitive,
            BridgedType::Foreign(_) => value is Opaque,
            BridgedType::Result(result) => value matches HostValue::Result(inner) && result.holds(
                *inner,
            ),
        }
    }

    /// Whether `payload` is of the form in which a value of this type
    /// crosses.
    pub open spec fn carries(self, payload: Payload) -> bool
        decreases self,
    {
        match self {
            BridgedType::Null => payload is Pointer,
            BridgedType::Primitive(_) => payload is Primitive,
            BridgedType::Foreign(_) => payload is Pointer,
            BridgedType::Result(result) => payload matches Payload::Record(record)
                && result.carries(*record),
        }
    }

    /// The value of this type that `payload` holds. For no value, what the
    /// payload holds is of no account.
    pub open spec fn value_of(self, payload: Payload) -> HostValue
        recommends
            self.carries(payload),
        decreases self,
    {
        match (self, payload) {
            (BridgedType::Primitive(_), Payload::Primitive(bits)) => HostValue::Primitive(bits),
            (BridgedType::Foreign(_), Payload::Pointer(address)) => HostValue::Opaque(address),
            (BridgedType::Result(result), Payload::Record(record)) => HostValue::Result(
                Box::new(result.host_value_of(*record)),
            ),
            _ => HostValue::Null,
        }
    }

    /// Takes a value of this type out of a payload. There is none where the
    /// payload is not of the form in which a value of this type crosses.
    pub fn value_from_payload(&self, payload: &Payload) -> (value: Option<HostValue>)
        ensures
            value is Some <==> self.carries(*payload),
            value matches Some(found) ==> found == self.value_of(*payload) && self.holds(found),
        decreases self,
    {
        match self {
            BridgedType::Null => match payload {
                Payload::Pointer(_) => Some(HostValue::Null),
                _ => None,
            },
            BridgedType::Primitive(_) => match payload {
                Payload::Primitive(bits) => Some(HostValue::Primitive(*bits)),
                _ => None,
            },
            BridgedType::Foreign(_) => match payload {
                Payload::Pointer(address) => Some(HostValue::Opaque(*address)),
                _ => None,
            },
            BridgedType::Result(result) => match payload {
                Payload::Record(record) => match result.from_ffi_value(record) {
                    Some(inner) => Some(HostValue::Result(Box::new(inner))),
                    None => None,
                },
                _ => None,
            },
        }
    }
}

impl HostValue {
    /// What of this value goes into a payload.
    pub fn to_payload(&self) -> (payload: Payload)
        ensures
            payload == payload_of(*self),
        decreases self, 0nat,
    {
        match self {
            HostValue::Null => Payload::Pointer(0),
            HostValue::Primitive(bits) => Payload::Primitive(*bits),
            HostValue::Opaque(address) => Payload::Pointer(*address),
            HostValue::Result(result) => Payload::Record(Box::new(BuiltInResult::to_ffi_value(result))),
        }
    }
}

impl BuiltInResult {
    /// Whether `value` is a value of this type: the value of its branch is a
    /// value of that branch's type.
    pub open spec fn holds(self, value: Result<HostValue, HostValue>) -> bool
        decreases self,
    {
        match value {
            Ok(ok) => self.ok_ty.holds(ok),
            Err(err) => self.err_ty.holds(err),
        }
    }

    /// Whether `record` is of the form in which a value of this type
    /// crosses: its payload is of the form of the branch that its flag
    /// tells.
    pub open spec fn carries(self, record: ResultRecord) -> bool
        decreases self,
    {
        if record.is_ok {
            self.ok_ty.carries(record.ok_or_err)
        } else {
            self.err_ty.carries(record.ok_or_err)
        }
    }

    /// The value of this type that `record` carries: the flag alone tells
    /// the branch.
    pub open spec fn host_value_of(self, record: ResultRecord) -> Result<HostValue, HostValue>
        recommends
            self.carries(record),
        decreases self,
    {
        if record.is_ok {
            Ok::<HostValue, HostValue>(self.ok_ty.value_of(record.ok_or_err))
        } else {
            Err(self.err_ty.value_of(record.ok_or_err))
        }
    }

    /// Turns a value into the record that crosses the boundary.
    pub fn to_ffi_value(value: &Result<HostValue, HostValue>) -> (record: ResultRecord)
        ensures
            record == record_of(*value),
        decreases value, 1nat,
    {
        match value {
            Ok(ok) => ResultRecord { is_ok: true, ok_or_err: ok.to_payload() },
            Err(err) => ResultRecord { is_ok: false, ok_or_err: err.to_payload() },
        }
    }

    /// Turns a record that has crossed the boundary back into a value of
    /// this type. There is none where the record is not of the form in
    /// which a value of this type crosses.
    pub fn from_ffi_value(&self, record: &ResultRecord) -> (value: Option<Result<HostValue, HostValue>>)
        ensures
            value is Some <==> self.carries(*record),
            value matches Some(found) ==> found == self.host_value_of(*record) && self.holds(found),
        decreases self,
    {
        if record.is_ok {
            match self.ok_ty.value_from_payload(&record.ok_or_err) {
                Some(ok) => Some(Ok(ok)),
                None => None,
            }
        } else {
            match self.err_ty.value_from_payload(&record.ok_or_err) {
                Some(err) => Some(Err(err)),
                None => None,
            }
        }
    }

    /// A value that goes over the boundary and comes back is the value that
    /// went: in either branch, whatever the types of the branches.
    pub proof fn lemma_round_trip(self, value: Result<HostValue, HostValue>)
        requires
            self.holds(value),
        ensures
            self.carries(record_of(value)),
            self.host_value_of(record_of(value)) == value,
        decreases self,
    {
        match value {
            Ok(ok) => {
                self.ok_ty.lemma_payload_round_trip(ok);
            },
            Err(err) => {
                self.err_ty.lemma_payload_round_trip(err);
            },
        }
    }
}

impl BridgedType {
    /// A value that goes into a payload comes back out of it.
    pub proof fn lemma_payload_round_trip(self, value: HostValue)
        requires
            self.holds(value),
        ensures
            self.carries(payload_of(value)),
            self.value_of(payload_of(value)) == value,
        decreases self,
    {
        match self {
            BridgedType::Result(result) => {
                let inner = value->Result_0;
                result.lemma_round_trip(*inner);
            },
            _ => {},
        }
    }
}

} // verus!
