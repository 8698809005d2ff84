//! The first instruction codes of the runtime, the section ids and the value
//! types it knew, with the bytes that encode them.
use vstd::prelude::*;

verus! {

/// An instruction code.
#[derive(Debug, Clone, Copy, PartialEq, Eq, Structural)]
pub enum Code {
    ConstI32,
    ConstI64,
    TypeValueI32,
    TypeValueI64,
    TypeValueEmpty,
    TypeFunction,
    GetLocal,
    TeeLocal,
    SetLocal,
    I32CountLeadingZero,
    I32CountTrailingZero,
    I32CountNonZero,
    I32Add,
    I32Sub,
    I32Mul,
    I32WrapI64,
    I32DivSign,
    I32DivUnsign,
    I32RemSign,
    I32RemUnsign,
    I32And,
    I32Or,
    I32Xor,
    I32ShiftLeft,
    I32ShiftRIghtSign,
    I32ShiftRightUnsign,
    I32RotateLeft,
    I32RotateRight,
    I64CountLeadingZero,
    I64CountTrailingZero,
    I64CountNonZero,
    I64Add,
    I64Sub,
    I64Mul,
    I64DivSign,
    I64DivUnsign,
    I64RemSign,
    I64RemUnsign,
    I64And,
    I64Or,
    I64Xor,
    I64ShiftLeft,
    I64ShiftRightSign,
    I64ShiftRightUnsign,
    I64RotateLeft,
    I64RotateRight,
    I64ExtendUnsignI32,
    Call,
    Select,
    I32EqualZero,
    Equal,
    NotEqual,
    LessThanSign,
    LessThanUnsign,
    GreaterThanSign,
    I32GreaterThanUnsign,
    I32LessEqualSign,
    I32LessEqualUnsign,
    I32GreaterEqualSign,
    I32GreaterEqualUnsign,
    I64EqualZero,
    I64Equal,
    I64NotEqual,
    I64LessThanSign,
    I64LessThanUnSign,
    I64GreaterThanSign,
    I64GreaterThanUnSign,
    I64LessEqualSign,
    I64LessEqualUnSign,
    I64GreaterEqualSign,
    I64GreaterEqualUnSign,
    If,
    Else,
    Return,
    End,
}

/// The code that a byte names, if it names one.
pub open spec fn spec_code(code: Option<u8>) -> Option<Code> {
    match code {
        Some(0x4u8) => Some(Code::If),
        Some(0x5u8) => Some(Code::Else),
        Some(0x0bu8) => Some(Code::End),
        Some(0x0fu8) => Some(Code::Return),
        Some(0x10u8) => Some(Code::Call),
        Some(0x1bu8) => Some(Code::Select),
        Some(0x20u8) => Some(Code::GetLocal),
        Some(0x21u8) => Some(Code::SetLocal),
        Some(0x22u8) => Some(Code::TeeLocal),
        Some(0x40u8) => Some(Code::TypeValueEmpty),
        Some(0x41u8) => Some(Code::ConstI32),
        Some(0x42u8) => Some(Code::ConstI64),
        Some(0x45u8) => Some(Code::I32EqualZero),
        Some(0x46u8) => Some(Code::Equal),
        Some(0x47u8) => Some(Code::NotEqual),
        Some(0x48u8) => Some(Code::LessThanSign),
        Some(0x49u8) => Some(Code::LessThanUnsign),
        Some(0x4au8) => Some(Code::GreaterThanSign),
        Some(0x4bu8) => Some(Code::I32GreaterThanUnsign),
        Some(0x4cu8) => Some(Code::I32LessEqualSign),
        Some(0x4du8) => Some(Code::I32LessEqualUnsign),
        Some(0x4eu8) => Some(Code::I32GreaterEqualSign),
        Some(0x4fu8) => Some(Code::I32GreaterEqualUnsign),
        Some(0x50u8) => Some(Code::I64EqualZero),
        Some(0x51u8) => Some(Code::I64Equal),
        Some(0x52u8) => Some(Code::I64NotEqual),
        Some(0x53u8) => Some(Code::I64LessThanSign),
        Some(0x54u8) => Some(Code::I64LessThanUnSign),
        Some(0x55u8) => Some(Code::I64GreaterThanSign),
        Some(0x56u8) => Some(Code::I64GreaterThanUnSign),
        Some(0x57u8) => Some(Code::I64LessEqualSign),
        Some(0x58u8) => Some(Code::I64LessEqualUnSign),
        Some(0x59u8) => Some(Code::I64GreaterEqualSign),
        Some(0x5au8) => Some(Code::I64GreaterEqualUnSign),
        Some(0x60u8) => Some(Code::TypeFunction),
        Some(0x67u8) => Some(Code::I32CountLeadingZero),
        Some(0x68u8) => Some(Code::I32CountTrailingZero),
        Some(0x69u8) => Some(Code::I32CountNonZero),
        Some(0x6au8) => Some(Code::I32Add),
        Some(0x6bu8) => Some(Code::I32Sub),
        Some(0x6cu8) => Some(Code::I32Mul),
        Some(0x6du8) => Some(Code::I32DivSign),
        Some(0x6eu8) => Some(Code::I32DivUnsign),
        Some(0x6fu8) => Some(Code::I32RemSign),
        Some(0x70u8) => Some(Code::I32RemUnsign),
        Some(0x71u8) => Some(Code::I32And),
        Some(0x72u8) => Some(Code::I32Or),
        Some(0x73u8) => Some(Code::I32Xor),
        Some(0x74u8) => Some(Code::I32ShiftLeft),
        Some(0x75u8) => Some(Code::I32ShiftRIghtSign),
        Some(0x76u8) => Some(Code::I32ShiftRightUnsign),
        Some(0x77u8) => Some(Code::I32RotateLeft),
        Some(0x78u8) => Some(Code::I32RotateRight),
        Some(0x79u8) => Some(Code::I64CountLeadingZero),
        Some(0x7au8) => Some(Code::I64CountTrailingZero),
        Some(0x7bu8) => Some(Code::I64CountNonZero),
        Some(0x7cu8) => Some(Code::I64Add),
        Some(0x7du8) => Some(Code::I64Sub),
        Some(0x7eu8) => Some(Code::I64Mul),
        Some(0x7fu8) => Some(Code::I64DivSign),
        Some(0x80u8) => Some(Code::I64DivUnsign),
        Some(0x81u8) => Some(Code::I64RemSign),
        Some(0x82u8) => Some(Code::I64RemUnsign),
        Some(0x83u8) => Some(Code::I64And),
        Some(0x84u8) => Some(Code::I64Or),
        Some(0x85u8) => Some(Code::I64Xor),
        Some(0x86u8) => Some(Code::I64ShiftLeft),
        Some(0x87u8) => Some(Code::I64ShiftRightSign),
        Some(0x88u8) => Some(Code::I64ShiftRightUnsign),
        Some(0x89u8) => Some(Code::I64RotateLeft),
        Some(0x8au8) => Some(Code::I64RotateRight),
        Some(0xa7u8) => Some(Code::I32WrapI64),
        Some(0xadu8) => Some(Code::I64ExtendUnsignI32),
        _ => None,
    }
}

impl Code {
    /// The code that a byte names; a byte of no code is left out.
    pub fn from(code: Option<u8>) -> (r: Code)
        requires
            spec_code(code) is Some,
        ensures
            Some(r) == spec_code(code),
    {
        match code {
            Some(0x4) => Code::If,
            Some(0x5) => Code::Else,
            Some(0x0b) => Code::End,
            Some(0x0f) => Code::Return,
            Some(0x10) => Code::Call,
            Some(0x1b) => Code::Select,
            Some(0x20) => Code::GetLocal,
            Some(0x21) => Code::SetLocal,
            Some(0x22) => Code::TeeLocal,
            Some(0x40) => Code::TypeValueEmpty,
            Some(0x41) => Code::ConstI32,
            Some(0x42) => Code::ConstI64,
            Some(0x45) => Code::I32EqualZero,
            Some(0x46) => Code::Equal,
            Some(0x47) => Code::NotEqual,
            Some(0x48) => Code::LessThanSign,
            Some(0x49) => Code::LessThanUnsign,
            Some(0x4a) => Code::GreaterThanSign,
            Some(0x4b) => Code::I32GreaterThanUnsign,
            Some(0x4c) => Code::I32LessEqualSign,
            Some(0x4d) => Code::I32LessEqualUnsign,
            Some(0x4e) => Code::I32GreaterEqualSign,
            Some(0x4f) => Code::I32GreaterEqualUnsign,
            Some(0x50) => Code::I64EqualZero,
            Some(0x51) => Code::I64Equal,
            Some(0x52) => Code::I64NotEqual,
            Some(0x53) => Code::I64LessThanSign,
            Some(0x54) => Code::I64LessThanUnSign,
            Some(0x55) => Code::I64GreaterThanSign,
            Some(0x56) => Code::I64GreaterThanUnSign,
            Some(0x57) => Code::I64LessEqualSign,
            Some(0x58) => Code::I64LessEqualUnSign,
            Some(0x59) => Code::I64GreaterEqualSign,
            Some(0x5a) => Code::I64GreaterEqualUnSign,
            Some(0x60) => Code::TypeFunction,
            Some(0x67) => Code::I32CountLeadingZero,
            Some(0x68) => Code::I32CountTrailingZero,
            Some(0x69) => Code::I32CountNonZero,
            Some(0x6a) => Code::I32Add,
            Some(0x6b) => Code::I32Sub,
            Some(0x6c) => Code::I32Mul,
            Some(0x6d) => Code::I32DivSign,
            Some(0x6e) => Code::I32DivUnsign,
            Some(0x6f) => Code::I32RemSign,
            Some(0x70) => Code::I32RemUnsign,
            Some(0x71) => Code::I32And,
            Some(0x72) => Code::I32Or,
            Some(0x73) => Code::I32Xor,
            Some(0x74) => Code::I32ShiftLeft,
            Some(0x75) => Code::I32ShiftRIghtSign,
            Some(0x76) => Code::I32ShiftRightUnsign,
            Some(0x77) => Code::I32RotateLeft,
            Some(0x78) => Code::I32RotateRight,
            Some(0x79) => Code::I64CountLeadingZero,
            Some(0x7a) => Code::I64CountTrailingZero,
            Some(0x7b) => Code::I64CountNonZero,
            Some(0x7c) => Code::I64Add,
            Some(0x7d) => Code::I64Sub,
            Some(0x7e) => Code::I64Mul,
            Some(0x7f) => Code::I64DivSign,
            Some(0x80) => Code::I64DivUnsign,
            Some(0x81) => Code::I64RemSign,
            Some(0x82) => Code::I64RemUnsign,
            Some(0x83) => Code::I64And,
            Some(0x84) => Code::I64Or,
            Some(0x85) => Code::I64Xor,
            Some(0x86) => Code::I64ShiftLeft,
            Some(0x87) => Code::I64ShiftRightSign,
            Some(0x88) => Code::I64ShiftRightUnsign,
            Some(0x89) => Code::I64RotateLeft,
            Some(0x8a) => Code::I64RotateRight,
            Some(0xa7) => Code::I32WrapI64,
            _ => Code::I64ExtendUnsignI32,
        }
    }

    /// Whether a byte is the `end` code.
    pub fn is_end_of_code(code: Option<u8>) -> (r: bool)
        ensures
            r == (code == Some(0x0bu8)),
    {
        match code {
            Some(0x0b) => true,
            _ => false,
        }
    }
}

/// The sections that the first decoder read.
#[derive(Debug, Clone, Copy, PartialEq, Eq, Structural)]
pub enum SecionCode {
    SectionType,
    SectionFunction,
    SectionExport,
    SectionCode,
}

/// The section that a byte names among those the first decoder read.
pub open spec fn spec_secion_code(code: Option<u8>) -> Option<SecionCode> {
    match code {
        Some(0x1u8) => Some(SecionCode::SectionType),
        Some(0x3u8) => Some(SecionCode::SectionFunction),
        Some(0x7u8) => Some(SecionCode::SectionExport),
        Some(0xau8) => Some(SecionCode::SectionCode),
        _ => None,
    }
}

impl SecionCode {
    /// The section that a byte names; other bytes are left out.
    pub fn from(code: Option<u8>) -> (r: SecionCode)
        requires
            spec_secion_code(code) is Some,
        ensures
            Some(r) == spec_secion_code(code),
    {
        match code {
            Some(0x1) => SecionCode::SectionType,
            Some(0x3) => SecionCode::SectionFunction,
            Some(0x7) => SecionCode::SectionExport,
            _ => SecionCode::SectionCode,
        }
    }
}

/// The kinds of export descriptions.
#[derive(Debug, Clone, Copy, PartialEq, Eq, Structural)]
pub enum ExportDescriptionCode {
    ExportDescFunctionIdx,
    ExportDescTableIdx,
    ExportDescMemIdx,
    ExportDescGlobalIdx,
}

/// The kind of export description that a byte names: 0 to 3.
pub open spec fn spec_export_description_code(code: Option<u8>) -> Option<ExportDescriptionCode> {
    match code {
        Some(0x00u8) => Some(ExportDescriptionCode::ExportDescFunctionIdx),
        Some(0x01u8) => Some(ExportDescriptionCode::ExportDescTableIdx),
        Some(0x02u8) => Some(ExportDescriptionCode::ExportDescMemIdx),
        Some(0x03u8) => Some(ExportDescriptionCode::ExportDescGlobalIdx),
        _ => None,
    }
}

impl ExportDescriptionCode {
    /// The kind of export description that a byte names; other bytes are left out.
    pub fn from(code: Option<u8>) -> (r: ExportDescriptionCode)
        requires
            spec_export_description_code(code) is Some,
        ensures
            Some(r) == spec_export_description_code(code),
    {
        match code {
            Some(0x00) => ExportDescriptionCode::ExportDescFunctionIdx,
            Some(0x01) => ExportDescriptionCode::ExportDescTableIdx,
            Some(0x02) => ExportDescriptionCode::ExportDescMemIdx,
            _ => ExportDescriptionCode::ExportDescGlobalIdx,
        }
    }
}

/// The value types that the first runtime knew; `Empty` is the empty block type.
#[derive(Debug, Clone, Copy, PartialEq, Eq, Structural)]
pub enum ValueTypes {
    Empty,
    I32,
    I64,
}

/// The value type that a byte names among those the first runtime knew.
pub open spec fn spec_value_types(code: Option<u8>) -> Option<ValueTypes> {
    match code {
        Some(0x40u8) => Some(ValueTypes::Empty),
        Some(0x7fu8) => Some(ValueTypes::I32),
        Some(0x7eu8) => Some(ValueTypes::I64),
        _ => None,
    }
}

impl ValueTypes {
    /// The value type that a byte names; other bytes are left out.
    pub fn from(code: Option<u8>) -> (r: ValueTypes)
        requires
            spec_value_types(code) is Some,
        ensures
            Some(r) == spec_value_types(code),
    {
        match code {
            Some(0x40) => ValueTypes::Empty,
            Some(0x7f) => ValueTypes::I32,
            _ => ValueTypes::I64,
        }
    }
}

} // verus!
