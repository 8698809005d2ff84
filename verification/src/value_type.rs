//! The value types of WebAssembly and the bytes that encode them.
use vstd::prelude::*;

verus! {

/// A value type; `Unit` is the empty block type.
#[derive(Debug, Clone, Copy, PartialEq, Eq, Structural)]
pub enum ValueTypes {
    Unit,
    I32,
    I64,
    F32,
    F64,
}

pub const TYPE_UNIT: ValueTypes = ValueTypes::Unit;

pub const TYPE_I32: ValueTypes = ValueTypes::I32;

pub const TYPE_I64: ValueTypes = ValueTypes::I64;

pub const TYPE_F32: ValueTypes = ValueTypes::F32;

pub const TYPE_F64: ValueTypes = ValueTypes::F64;

/// The value type that a byte encodes, if it encodes one.
pub open spec fn spec_value_type(code: u8) -> Option<ValueTypes> {
    if code == 0x40 {
        Some(ValueTypes::Unit)
    } else if code == 0x7f {
        Some(ValueTypes::I32)
    } else if code == 0x7e {
        Some(ValueTypes::I64)
    } else if code == 0x7d {
        Some(ValueTypes::F32)
    } else if code == 0x7c {
        Some(ValueTypes::F64)
    } else {
        None
    }
}

/// The byte that encodes a value type.
pub open spec fn spec_value_type_code(ty: ValueTypes) -> u8 {
    match ty {
        ValueTypes::Unit => 0x40,
        ValueTypes::I32 => 0x7f,
        ValueTypes::I64 => 0x7e,
        ValueTypes::F32 => 0x7d,
        ValueTypes::F64 => 0x7c,
    }
}

impl ValueTypes {
    /// The value type that a byte encodes; bytes of no value type are left out.
    pub fn from(code: u8) -> (r: ValueTypes)
        requires
            spec_value_type(code) is Some,
        ensures
            Some(r) == spec_value_type(code),
    {
        if code == 0x40 {
            ValueTypes::Unit
        } else if code == 0x7f {
            ValueTypes::I32
        } else if code == 0x7e {
            ValueTypes::I64
        } else if code == 0x7d {
            ValueTypes::F32
        } else {
            ValueTypes::F64
        }
    }

    /// The value type that a byte encodes, or `None`.
    pub fn try_from_code(code: u8) -> (r: Option<ValueTypes>)
        ensures
            r == spec_value_type(code),
    {
        if code == 0x40 || code == 0x7f || code == 0x7e || code == 0x7d || code == 0x7c {
            Some(ValueTypes::from(code))
        } else {
            None
        }
    }

    /// The short name of the type: `()`, `i32`, `i64`, `f32` or `f64`.
    pub fn name(&self) -> (s: &'static str)
        ensures
            s@ == match *self {
                ValueTypes::Unit => "()"@,
                ValueTypes::I32 => "i32"@,
                ValueTypes::I64 => "i64"@,
                ValueTypes::F32 => "f32"@,
                ValueTypes::F64 => "f64"@,
            },
    {
        match self {
            ValueTypes::Unit => "()",
            ValueTypes::I32 => "i32",
            ValueTypes::I64 => "i64",
            ValueTypes::F32 => "f32",
            ValueTypes::F64 => "f64",
        }
    }
}

/// Encoding a value type and decoding the byte gives the type back.
pub proof fn lemma_value_type_roundtrip(ty: ValueTypes)
    ensures
        spec_value_type(spec_value_type_code(ty)) == Some(ty),
{
}

} // verus!
