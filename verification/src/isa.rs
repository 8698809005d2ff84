//! The instruction set: opcodes and the byte that encodes each.
use vstd::prelude::*;
use crate::value_type::ValueTypes;

verus! {

/// An instruction of the WebAssembly instruction set, by opcode.
#[derive(Debug, Clone, Copy, PartialEq, Eq, Structural)]
pub enum Isa {
    Reserved,
    Unreachable,
    Nop,
    Block,
    Loop,
    If,
    Else,
    End,
    Br,
    BrIf,
    BrTable,
    Return,
    Call,
    CallIndirect,
    Select,
    DropInst,
    I32Const,
    I64Const,
    F32Const,
    F64Const,
    GetLocal,
    TeeLocal,
    SetLocal,
    GetGlobal,
    SetGlobal,
    I32Load,
    I64Load,
    F32Load,
    F64Load,
    I32Load8Sign,
    I32Load8Unsign,
    I32Load16Sign,
    I32Load16Unsign,
    I64Load8Sign,
    I64Load8Unsign,
    I64Load16Sign,
    I64Load16Unsign,
    I64Load32Sign,
    I64Load32Unsign,
    I32Store,
    I64Store,
    F32Store,
    F64Store,
    I32Store8,
    I32Store16,
    I64Store8,
    I64Store16,
    I64Store32,
    MemorySize,
    MemoryGrow,
    I32CountLeadingZero,
    I32CountTrailingZero,
    I32CountNonZero,
    I32Add,
    I32Sub,
    I32Mul,
    I32WrapI64,
    I32DivSign,
    I32DivUnsign,
    I32RemSign,
    I32RemUnsign,
    I32And,
    I32Or,
    I32Xor,
    I32ShiftLeft,
    I32ShiftRIghtSign,
    I32ShiftRightUnsign,
    I32RotateLeft,
    I32RotateRight,
    I64CountLeadingZero,
    I64CountTrailingZero,
    I64CountNonZero,
    I64Add,
    I64Sub,
    I64Mul,
    I64DivSign,
    I64DivUnsign,
    I64RemSign,
    I64RemUnsign,
    I64And,
    I64Or,
    I64Xor,
    I64ShiftLeft,
    I64ShiftRightSign,
    I64ShiftRightUnsign,
    I64RotateLeft,
    I64RotateRight,
    I32EqualZero,
    I32Equal,
    I32NotEqual,
    I32LessThanSign,
    I32LessThanUnsign,
    I32GreaterThanSign,
    I32GreaterThanUnsign,
    I32LessEqualSign,
    I32LessEqualUnsign,
    I32GreaterEqualSign,
    I32GreaterEqualUnsign,
    I64EqualZero,
    I64Equal,
    I64NotEqual,
    I64LessThanSign,
    I64LessThanUnSign,
    I64GreaterThanSign,
    I64GreaterThanUnSign,
    I64LessEqualSign,
    I64LessEqualUnSign,
    I64GreaterEqualSign,
    I64GreaterEqualUnSign,
    F32Equal,
    F32NotEqual,
    F32LessThan,
    F32GreaterThan,
    F32LessEqual,
    F32GreaterEqual,
    F64Equal,
    F64NotEqual,
    F64LessThan,
    F64GreaterThan,
    F64LessEqual,
    F64GreaterEqual,
    F32Abs,
    F32Neg,
    F32Ceil,
    F32Floor,
    F32Trunc,
    F32Nearest,
    F32Sqrt,
    F32Add,
    F32Sub,
    F32Mul,
    F32Div,
    F32Min,
    F32Max,
    F32Copysign,
    F64Abs,
    F64Neg,
    F64Ceil,
    F64Floor,
    F64Trunc,
    F64Nearest,
    F64Sqrt,
    F64Add,
    F64Sub,
    F64Mul,
    F64Div,
    F64Min,
    F64Max,
    F64Copysign,
    I32TruncSignF32,
    I32TruncUnsignF32,
    I32TruncSignF64,
    I32TruncUnsignF64,
    I64ExtendSignI32,
    I64ExtendUnsignI32,
    I64TruncSignF32,
    I64TruncUnsignF32,
    I64TruncSignF64,
    I64TruncUnsignF64,
    F32ConvertSignI32,
    F32ConvertUnsignI32,
    F32ConvertSignI64,
    F32ConvertUnsignI64,
    F32DemoteF64,
    F64ConvertSignI32,
    F64ConvertUnsignI32,
    F64ConvertSignI64,
    F64ConvertUnsignI64,
    F64PromoteF32,
    I32ReinterpretF32,
    I64ReinterpretF64,
    F32ReinterpretI32,
    F64ReinterpretI64,
}

/// The bytes that name an instruction or a reserved opcode.
pub open spec fn is_isa_code(code: u8) -> bool {
    code <= 0xbf && !(0x1c <= code <= 0x1f)
}

/// The instruction that a byte names.
pub open spec fn spec_isa_from(code: u8) -> Isa {
    match code {
        0x00u8 => Isa::Unreachable,
        0x01u8 => Isa::Nop,
        0x02u8 => Isa::Block,
        0x03u8 => Isa::Loop,
        0x04u8 => Isa::If,
        0x05u8 => Isa::Else,
        0x06u8 => Isa::Reserved,
        0x07u8 => Isa::Reserved,
        0x08u8 => Isa::Reserved,
        0x09u8 => Isa::Reserved,
        0x0au8 => Isa::Reserved,
        0x0bu8 => Isa::End,
        0x0cu8 => Isa::Br,
        0x0du8 => Isa::BrIf,
        0x0eu8 => Isa::BrTable,
        0x0fu8 => Isa::Return,
        0x10u8 => Isa::Call,
        0x11u8 => Isa::CallIndirect,
        0x12u8 => Isa::Reserved,
        0x13u8 => Isa::Reserved,
        0x14u8 => Isa::Reserved,
        0x15u8 => Isa::Reserved,
        0x16u8 => Isa::Reserved,
        0x17u8 => Isa::Reserved,
        0x18u8 => Isa::Reserved,
        0x19u8 => Isa::Reserved,
        0x1au8 => Isa::DropInst,
        0x1bu8 => Isa::Select,
        0x20u8 => Isa::GetLocal,
        0x21u8 => Isa::SetLocal,
        0x22u8 => Isa::TeeLocal,
        0x23u8 => Isa::GetGlobal,
        0x24u8 => Isa::SetGlobal,
        0x25u8 => Isa::Reserved,
        0x26u8 => Isa::Reserved,
        0x27u8 => Isa::Reserved,
        0x28u8 => Isa::I32Load,
        0x29u8 => Isa::I64Load,
        0x2au8 => Isa::F32Load,
        0x2bu8 => Isa::F64Load,
        0x2cu8 => Isa::I32Load8Sign,
        0x2du8 => Isa::I32Load8Unsign,
        0x2eu8 => Isa::I32Load16Sign,
        0x2fu8 => Isa::I32Load16Unsign,
        0x30u8 => Isa::I64Load8Sign,
        0x31u8 => Isa::I64Load8Unsign,
        0x32u8 => Isa::I64Load16Sign,
        0x33u8 => Isa::I64Load16Unsign,
        0x34u8 => Isa::I64Load32Sign,
        0x35u8 => Isa::I64Load32Unsign,
        0x36u8 => Isa::I32Store,
        0x37u8 => Isa::I64Store,
        0x38u8 => Isa::F32Store,
        0x39u8 => Isa::F64Store,
        0x3au8 => Isa::I32Store8,
        0x3bu8 => Isa::I32Store16,
        0x3cu8 => Isa::I64Store8,
        0x3du8 => Isa::I64Store16,
        0x3eu8 => Isa::I64Store32,
        0x3fu8 => Isa::MemorySize,
        0x40u8 => Isa::MemoryGrow,
        0x41u8 => Isa::I32Const,
        0x42u8 => Isa::I64Const,
        0x43u8 => Isa::F32Const,
        0x44u8 => Isa::F64Const,
        0x45u8 => Isa::I32EqualZero,
        0x46u8 => Isa::I32Equal,
        0x47u8 => Isa::I32NotEqual,
        0x48u8 => Isa::I32LessThanSign,
        0x49u8 => Isa::I32LessThanUnsign,
        0x4au8 => Isa::I32GreaterThanSign,
        0x4bu8 => Isa::I32GreaterThanUnsign,
        0x4cu8 => Isa::I32LessEqualSign,
        0x4du8 => Isa::I32LessEqualUnsign,
        0x4eu8 => Isa::I32GreaterEqualSign,
        0x4fu8 => Isa::I32GreaterEqualUnsign,
        0x50u8 => Isa::I64EqualZero,
        0x51u8 => Isa::I64Equal,
        0x52u8 => Isa::I64NotEqual,
        0x53u8 => Isa::I64LessThanSign,
        0x54u8 => Isa::I64LessThanUnSign,
        0x55u8 => Isa::I64GreaterThanSign,
        0x56u8 => Isa::I64GreaterThanUnSign,
        0x57u8 => Isa::I64LessEqualSign,
        0x58u8 => Isa::I64LessEqualUnSign,
        0x59u8 => Isa::I64GreaterEqualSign,
        0x5au8 => Isa::I64GreaterEqualUnSign,
        0x5bu8 => Isa::F32Equal,
        0x5cu8 => Isa::F32NotEqual,
        0x5du8 => Isa::F32LessThan,
        0x5eu8 => Isa::F32GreaterThan,
        0x5fu8 => Isa::F32LessEqual,
        0x60u8 => Isa::F32GreaterEqual,
        0x61u8 => Isa::F64Equal,
        0x62u8 => Isa::F64NotEqual,
        0x63u8 => Isa::F64LessThan,
        0x64u8 => Isa::F64GreaterThan,
        0x65u8 => Isa::F64LessEqual,
        0x66u8 => Isa::F64GreaterEqual,
        0x67u8 => Isa::I32CountLeadingZero,
        0x68u8 => Isa::I32CountTrailingZero,
        0x69u8 => Isa::I32CountNonZero,
        0x6au8 => Isa::I32Add,
        0x6bu8 => Isa::I32Sub,
        0x6cu8 => Isa::I32Mul,
        0x6du8 => Isa::I32DivSign,
        0x6eu8 => Isa::I32DivUnsign,
        0x6fu8 => Isa::I32RemSign,
        0x70u8 => Isa::I32RemUnsign,
        0x71u8 => Isa::I32And,
        0x72u8 => Isa::I32Or,
        0x73u8 => Isa::I32Xor,
        0x74u8 => Isa::I32ShiftLeft,
        0x75u8 => Isa::I32ShiftRIghtSign,
        0x76u8 => Isa::I32ShiftRightUnsign,
        0x77u8 => Isa::I32RotateLeft,
        0x78u8 => Isa::I32RotateRight,
        0x79u8 => Isa::I64CountLeadingZero,
        0x7au8 => Isa::I64CountTrailingZero,
        0x7bu8 => Isa::I64CountNonZero,
        0x7cu8 => Isa::I64Add,
        0x7du8 => Isa::I64Sub,
        0x7eu8 => Isa::I64Mul,
        0x7fu8 => Isa::I64DivSign,
        0x80u8 => Isa::I64DivUnsign,
        0x81u8 => Isa::I64RemSign,
        0x82u8 => Isa::I64RemUnsign,
        0x83u8 => Isa::I64And,
        0x84u8 => Isa::I64Or,
        0x85u8 => Isa::I64Xor,
        0x86u8 => Isa::I64ShiftLeft,
        0x87u8 => Isa::I64ShiftRightSign,
        0x88u8 => Isa::I64ShiftRightUnsign,
        0x89u8 => Isa::I64RotateLeft,
        0x8au8 => Isa::I64RotateRight,
        0x8bu8 => Isa::F32Abs,
        0x8cu8 => Isa::F32Neg,
        0x8du8 => Isa::F32Ceil,
        0x8eu8 => Isa::F32Floor,
        0x8fu8 => Isa::F32Trunc,
        0x90u8 => Isa::F32Nearest,
        0x91u8 => Isa::F32Sqrt,
        0x92u8 => Isa::F32Add,
        0x93u8 => Isa::F32Sub,
        0x94u8 => Isa::F32Mul,
        0x95u8 => Isa::F32Div,
        0x96u8 => Isa::F32Min,
        0x97u8 => Isa::F32Max,
        0x98u8 => Isa::F32Copysign,
        0x99u8 => Isa::F64Abs,
        0x9au8 => Isa::F64Neg,
        0x9bu8 => Isa::F64Ceil,
        0x9cu8 => Isa::F64Floor,
        0x9du8 => Isa::F64Trunc,
        0x9eu8 => Isa::F64Nearest,
        0x9fu8 => Isa::F64Sqrt,
        0xa0u8 => Isa::F64Add,
        0xa1u8 => Isa::F64Sub,
        0xa2u8 => Isa::F64Mul,
        0xa3u8 => Isa::F64Div,
        0xa4u8 => Isa::F64Min,
        0xa5u8 => Isa::F64Max,
        0xa6u8 => Isa::F64Copysign,
        0xa7u8 => Isa::I32WrapI64,
        0xa8u8 => Isa::I32TruncSignF32,
        0xa9u8 => Isa::I32TruncUnsignF32,
        0xaau8 => Isa::I32TruncSignF64,
        0xabu8 => Isa::I32TruncUnsignF64,
        0xacu8 => Isa::I64ExtendSignI32,
        0xadu8 => Isa::I64ExtendUnsignI32,
        0xaeu8 => Isa::I64TruncSignF32,
        0xafu8 => Isa::I64TruncUnsignF32,
        0xb0u8 => Isa::I64TruncSignF64,
        0xb1u8 => Isa::I64TruncUnsignF64,
        0xb2u8 => Isa::F32ConvertSignI32,
        0xb3u8 => Isa::F32ConvertUnsignI32,
        0xb4u8 => Isa::F32ConvertSignI64,
        0xb5u8 => Isa::F32ConvertUnsignI64,
        0xb6u8 => Isa::F32DemoteF64,
        0xb7u8 => Isa::F64ConvertSignI32,
        0xb8u8 => Isa::F64ConvertUnsignI32,
        0xb9u8 => Isa::F64ConvertSignI64,
        0xbau8 => Isa::F64ConvertUnsignI64,
        0xbbu8 => Isa::F64PromoteF32,
        0xbcu8 => Isa::I32ReinterpretF32,
        0xbdu8 => Isa::I64ReinterpretF64,
        0xbeu8 => Isa::F32ReinterpretI32,
        0xbfu8 => Isa::F64ReinterpretI64,
        _ => Isa::Reserved,
    }
}

/// The byte that encodes an instruction; the reserved opcodes have none.
pub open spec fn spec_isa_code(isa: Isa) -> u8 {
    match isa {
        Isa::Reserved => 0,
        Isa::Unreachable => 0x00,
        Isa::Nop => 0x01,
        Isa::Block => 0x02,
        Isa::Loop => 0x03,
        Isa::If => 0x04,
        Isa::Else => 0x05,
        Isa::End => 0x0b,
        Isa::Br => 0x0c,
        Isa::BrIf => 0x0d,
        Isa::BrTable => 0x0e,
        Isa::Return => 0x0f,
        Isa::Call => 0x10,
        Isa::CallIndirect => 0x11,
        Isa::Select => 0x1b,
        Isa::DropInst => 0x1a,
        Isa::I32Const => 0x41,
        Isa::I64Const => 0x42,
        Isa::F32Const => 0x43,
        Isa::F64Const => 0x44,
        Isa::GetLocal => 0x20,
        Isa::TeeLocal => 0x22,
        Isa::SetLocal => 0x21,
        Isa::GetGlobal => 0x23,
        Isa::SetGlobal => 0x24,
        Isa::I32Load => 0x28,
        Isa::I64Load => 0x29,
        Isa::F32Load => 0x2a,
        Isa::F64Load => 0x2b,
        Isa::I32Load8Sign => 0x2c,
        Isa::I32Load8Unsign => 0x2d,
        Isa::I32Load16Sign => 0x2e,
        Isa::I32Load16Unsign => 0x2f,
        Isa::I64Load8Sign => 0x30,
        Isa::I64Load8Unsign => 0x31,
        Isa::I64Load16Sign => 0x32,
        Isa::I64Load16Unsign => 0x33,
        Isa::I64Load32Sign => 0x34,
        Isa::I64Load32Unsign => 0x35,
        Isa::I32Store => 0x36,
        Isa::I64Store => 0x37,
        Isa::F32Store => 0x38,
        Isa::F64Store => 0x39,
        Isa::I32Store8 => 0x3a,
        Isa::I32Store16 => 0x3b,
        Isa::I64Store8 => 0x3c,
        Isa::I64Store16 => 0x3d,
        Isa::I64Store32 => 0x3e,
        Isa::MemorySize => 0x3f,
        Isa::MemoryGrow => 0x40,
        Isa::I32CountLeadingZero => 0x67,
        Isa::I32CountTrailingZero => 0x68,
        Isa::I32CountNonZero => 0x69,
        Isa::I32Add => 0x6a,
        Isa::I32Sub => 0x6b,
        Isa::I32Mul => 0x6c,
        Isa::I32WrapI64 => 0xa7,
        Isa::I32DivSign => 0x6d,
        Isa::I32DivUnsign => 0x6e,
        Isa::I32RemSign => 0x6f,
        Isa::I32RemUnsign => 0x70,
        Isa::I32And => 0x71,
        Isa::I32Or => 0x72,
        Isa::I32Xor => 0x73,
        Isa::I32ShiftLeft => 0x74,
        Isa::I32ShiftRIghtSign => 0x75,
        Isa::I32ShiftRightUnsign => 0x76,
        Isa::I32RotateLeft => 0x77,
        Isa::I32RotateRight => 0x78,
        Isa::I64CountLeadingZero => 0x79,
        Isa::I64CountTrailingZero => 0x7a,
        Isa::I64CountNonZero => 0x7b,
        Isa::I64Add => 0x7c,
        Isa::I64Sub => 0x7d,
        Isa::I64Mul => 0x7e,
        Isa::I64DivSign => 0x7f,
        Isa::I64DivUnsign => 0x80,
        Isa::I64RemSign => 0x81,
        Isa::I64RemUnsign => 0x82,
        Isa::I64And => 0x83,
        Isa::I64Or => 0x84,
        Isa::I64Xor => 0x85,
        Isa::I64ShiftLeft => 0x86,
        Isa::I64ShiftRightSign => 0x87,
        Isa::I64ShiftRightUnsign => 0x88,
        Isa::I64RotateLeft => 0x89,
        Isa::I64RotateRight => 0x8a,
        Isa::I32EqualZero => 0x45,
        Isa::I32Equal => 0x46,
        Isa::I32NotEqual => 0x47,
        Isa::I32LessThanSign => 0x48,
        Isa::I32LessThanUnsign => 0x49,
        Isa::I32GreaterThanSign => 0x4a,
        Isa::I32GreaterThanUnsign => 0x4b,
        Isa::I32LessEqualSign => 0x4c,
        Isa::I32LessEqualUnsign => 0x4d,
        Isa::I32GreaterEqualSign => 0x4e,
        Isa::I32GreaterEqualUnsign => 0x4f,
        Isa::I64EqualZero => 0x50,
        Isa::I64Equal => 0x51,
        Isa::I64NotEqual => 0x52,
        Isa::I64LessThanSign => 0x53,
        Isa::I64LessThanUnSign => 0x54,
        Isa::I64GreaterThanSign => 0x55,
        Isa::I64GreaterThanUnSign => 0x56,
        Isa::I64LessEqualSign => 0x57,
        Isa::I64LessEqualUnSign => 0x58,
        Isa::I64GreaterEqualSign => 0x59,
        Isa::I64GreaterEqualUnSign => 0x5a,
        Isa::F32Equal => 0x5b,
        Isa::F32NotEqual => 0x5c,
        Isa::F32LessThan => 0x5d,
        Isa::F32GreaterThan => 0x5e,
        Isa::F32LessEqual => 0x5f,
        Isa::F32GreaterEqual => 0x60,
        Isa::F64Equal => 0x61,
        Isa::F64NotEqual => 0x62,
        Isa::F64LessThan => 0x63,
        Isa::F64GreaterThan => 0x64,
        Isa::F64LessEqual => 0x65,
        Isa::F64GreaterEqual => 0x66,
        Isa::F32Abs => 0x8b,
        Isa::F32Neg => 0x8c,
        Isa::F32Ceil => 0x8d,
        Isa::F32Floor => 0x8e,
        Isa::F32Trunc => 0x8f,
        Isa::F32Nearest => 0x90,
        Isa::F32Sqrt => 0x91,
        Isa::F32Add => 0x92,
        Isa::F32Sub => 0x93,
        Isa::F32Mul => 0x94,
        Isa::F32Div => 0x95,
        Isa::F32Min => 0x96,
        Isa::F32Max => 0x97,
        Isa::F32Copysign => 0x98,
        Isa::F64Abs => 0x99,
        Isa::F64Neg => 0x9a,
        Isa::F64Ceil => 0x9b,
        Isa::F64Floor => 0x9c,
        Isa::F64Trunc => 0x9d,
        Isa::F64Nearest => 0x9e,
        Isa::F64Sqrt => 0x9f,
        Isa::F64Add => 0xa0,
        Isa::F64Sub => 0xa1,
        Isa::F64Mul => 0xa2,
        Isa::F64Div => 0xa3,
        Isa::F64Min => 0xa4,
        Isa::F64Max => 0xa5,
        Isa::F64Copysign => 0xa6,
        Isa::I32TruncSignF32 => 0xa8,
        Isa::I32TruncUnsignF32 => 0xa9,
        Isa::I32TruncSignF64 => 0xaa,
        Isa::I32TruncUnsignF64 => 0xab,
        Isa::I64ExtendSignI32 => 0xac,
        Isa::I64ExtendUnsignI32 => 0xad,
        Isa::I64TruncSignF32 => 0xae,
        Isa::I64TruncUnsignF32 => 0xaf,
        Isa::I64TruncSignF64 => 0xb0,
        Isa::I64TruncUnsignF64 => 0xb1,
        Isa::F32ConvertSignI32 => 0xb2,
        Isa::F32ConvertUnsignI32 => 0xb3,
        Isa::F32ConvertSignI64 => 0xb4,
        Isa::F32ConvertUnsignI64 => 0xb5,
        Isa::F32DemoteF64 => 0xb6,
        Isa::F64ConvertSignI32 => 0xb7,
        Isa::F64ConvertUnsignI32 => 0xb8,
        Isa::F64ConvertSignI64 => 0xb9,
        Isa::F64ConvertUnsignI64 => 0xba,
        Isa::F64PromoteF32 => 0xbb,
        Isa::I32ReinterpretF32 => 0xbc,
        Isa::I64ReinterpretF64 => 0xbd,
        Isa::F32ReinterpretI32 => 0xbe,
        Isa::F64ReinterpretI64 => 0xbf,
    }
}

impl Isa {
    /// The instruction that a byte names. Bytes of no instruction
    /// (past 0xbf, and 0x1c to 0x1f) are left out.
    pub fn from(code: u8) -> (r: Isa)
        requires
            is_isa_code(code),
        ensures
            r == spec_isa_from(code),
    {
        match code {
            0x00 => Isa::Unreachable,
            0x01 => Isa::Nop,
            0x02 => Isa::Block,
            0x03 => Isa::Loop,
            0x04 => Isa::If,
            0x05 => Isa::Else,
            0x06 => Isa::Reserved,
            0x07 => Isa::Reserved,
            0x08 => Isa::Reserved,
            0x09 => Isa::Reserved,
            0x0a => Isa::Reserved,
            0x0b => Isa::End,
            0x0c => Isa::Br,
            0x0d => Isa::BrIf,
            0x0e => Isa::BrTable,
            0x0f => Isa::Return,
            0x10 => Isa::Call,
            0x11 => Isa::CallIndirect,
            0x12 => Isa::Reserved,
            0x13 => Isa::Reserved,
            0x14 => Isa::Reserved,
            0x15 => Isa::Reserved,
            0x16 => Isa::Reserved,
            0x17 => Isa::Reserved,
            0x18 => Isa::Reserved,
            0x19 => Isa::Reserved,
            0x1a => Isa::DropInst,
            0x1b => Isa::Select,
            0x20 => Isa::GetLocal,
            0x21 => Isa::SetLocal,
            0x22 => Isa::TeeLocal,
            0x23 => Isa::GetGlobal,
            0x24 => Isa::SetGlobal,
            0x25 => Isa::Reserved,
            0x26 => Isa::Reserved,
            0x27 => Isa::Reserved,
            0x28 => Isa::I32Load,
            0x29 => Isa::I64Load,
            0x2a => Isa::F32Load,
            0x2b => Isa::F64Load,
            0x2c => Isa::I32Load8Sign,
            0x2d => Isa::I32Load8Unsign,
            0x2e => Isa::I32Load16Sign,
            0x2f => Isa::I32Load16Unsign,
            0x30 => Isa::I64Load8Sign,
            0x31 => Isa::I64Load8Unsign,
            0x32 => Isa::I64Load16Sign,
            0x33 => Isa::I64Load16Unsign,
            0x34 => Isa::I64Load32Sign,
            0x35 => Isa::I64Load32Unsign,
            0x36 => Isa::I32Store,
            0x37 => Isa::I64Store,
            0x38 => Isa::F32Store,
            0x39 => Isa::F64Store,
            0x3a => Isa::I32Store8,
            0x3b => Isa::I32Store16,
            0x3c => Isa::I64Store8,
            0x3d => Isa::I64Store16,
            0x3e => Isa::I64Store32,
            0x3f => Isa::MemorySize,
            0x40 => Isa::MemoryGrow,
            0x41 => Isa::I32Const,
            0x42 => Isa::I64Const,
            0x43 => Isa::F32Const,
            0x44 => Isa::F64Const,
            0x45 => Isa::I32EqualZero,
            0x46 => Isa::I32Equal,
            0x47 => Isa::I32NotEqual,
            0x48 => Isa::I32LessThanSign,
            0x49 => Isa::I32LessThanUnsign,
            0x4a => Isa::I32GreaterThanSign,
            0x4b => Isa::I32GreaterThanUnsign,
            0x4c => Isa::I32LessEqualSign,
            0x4d => Isa::I32LessEqualUnsign,
            0x4e => Isa::I32GreaterEqualSign,
            0x4f => Isa::I32GreaterEqualUnsign,
            0x50 => Isa::I64EqualZero,
            0x51 => Isa::I64Equal,
            0x52 => Isa::I64NotEqual,
            0x53 => Isa::I64LessThanSign,
            0x54 => Isa::I64LessThanUnSign,
            0x55 => Isa::I64GreaterThanSign,
            0x56 => Isa::I64GreaterThanUnSign,
            0x57 => Isa::I64LessEqualSign,
            0x58 => Isa::I64LessEqualUnSign,
            0x59 => Isa::I64GreaterEqualSign,
            0x5a => Isa::I64GreaterEqualUnSign,
            0x5b => Isa::F32Equal,
            0x5c => Isa::F32NotEqual,
            0x5d => Isa::F32LessThan,
            0x5e => Isa::F32GreaterThan,
            0x5f => Isa::F32LessEqual,
            0x60 => Isa::F32GreaterEqual,
            0x61 => Isa::F64Equal,
            0x62 => Isa::F64NotEqual,
            0x63 => Isa::F64LessThan,
            0x64 => Isa::F64GreaterThan,
            0x65 => Isa::F64LessEqual,
            0x66 => Isa::F64GreaterEqual,
            0x67 => Isa::I32CountLeadingZero,
            0x68 => Isa::I32CountTrailingZero,
            0x69 => Isa::I32CountNonZero,
            0x6a => Isa::I32Add,
            0x6b => Isa::I32Sub,
            0x6c => Isa::I32Mul,
            0x6d => Isa::I32DivSign,
            0x6e => Isa::I32DivUnsign,
            0x6f => Isa::I32RemSign,
            0x70 => Isa::I32RemUnsign,
            0x71 => Isa::I32And,
            0x72 => Isa::I32Or,
            0x73 => Isa::I32Xor,
            0x74 => Isa::I32ShiftLeft,
            0x75 => Isa::I32ShiftRIghtSign,
            0x76 => Isa::I32ShiftRightUnsign,
            0x77 => Isa::I32RotateLeft,
            0x78 => Isa::I32RotateRight,
            0x79 => Isa::I64CountLeadingZero,
            0x7a => Isa::I64CountTrailingZero,
            0x7b => Isa::I64CountNonZero,
            0x7c => Isa::I64Add,
            0x7d => Isa::I64Sub,
            0x7e => Isa::I64Mul,
            0x7f => Isa::I64DivSign,
            0x80 => Isa::I64DivUnsign,
            0x81 => Isa::I64RemSign,
            0x82 => Isa::I64RemUnsign,
            0x83 => Isa::I64And,
            0x84 => Isa::I64Or,
            0x85 => Isa::I64Xor,
            0x86 => Isa::I64ShiftLeft,
            0x87 => Isa::I64ShiftRightSign,
            0x88 => Isa::I64ShiftRightUnsign,
            0x89 => Isa::I64RotateLeft,
            0x8a => Isa::I64RotateRight,
            0x8b => Isa::F32Abs,
            0x8c => Isa::F32Neg,
            0x8d => Isa::F32Ceil,
            0x8e => Isa::F32Floor,
            0x8f => Isa::F32Trunc,
            0x90 => Isa::F32Nearest,
            0x91 => Isa::F32Sqrt,
            0x92 => Isa::F32Add,
            0x93 => Isa::F32Sub,
            0x94 => Isa::F32Mul,
            0x95 => Isa::F32Div,
            0x96 => Isa::F32Min,
            0x97 => Isa::F32Max,
            0x98 => Isa::F32Copysign,
            0x99 => Isa::F64Abs,
            0x9a => Isa::F64Neg,
            0x9b => Isa::F64Ceil,
            0x9c => Isa::F64Floor,
            0x9d => Isa::F64Trunc,
            0x9e => Isa::F64Nearest,
            0x9f => Isa::F64Sqrt,
            0xa0 => Isa::F64Add,
            0xa1 => Isa::F64Sub,
            0xa2 => Isa::F64Mul,
            0xa3 => Isa::F64Div,
            0xa4 => Isa::F64Min,
            0xa5 => Isa::F64Max,
            0xa6 => Isa::F64Copysign,
            0xa7 => Isa::I32WrapI64,
            0xa8 => Isa::I32TruncSignF32,
            0xa9 => Isa::I32TruncUnsignF32,
            0xaa => Isa::I32TruncSignF64,
            0xab => Isa::I32TruncUnsignF64,
            0xac => Isa::I64ExtendSignI32,
            0xad => Isa::I64ExtendUnsignI32,
            0xae => Isa::I64TruncSignF32,
            0xaf => Isa::I64TruncUnsignF32,
            0xb0 => Isa::I64TruncSignF64,
            0xb1 => Isa::I64TruncUnsignF64,
            0xb2 => Isa::F32ConvertSignI32,
            0xb3 => Isa::F32ConvertUnsignI32,
            0xb4 => Isa::F32ConvertSignI64,
            0xb5 => Isa::F32ConvertUnsignI64,
            0xb6 => Isa::F32DemoteF64,
            0xb7 => Isa::F64ConvertSignI32,
            0xb8 => Isa::F64ConvertUnsignI32,
            0xb9 => Isa::F64ConvertSignI64,
            0xba => Isa::F64ConvertUnsignI64,
            0xbb => Isa::F64PromoteF32,
            0xbc => Isa::I32ReinterpretF32,
            0xbd => Isa::I64ReinterpretF64,
            0xbe => Isa::F32ReinterpretI32,
            0xbf => Isa::F64ReinterpretI64,
            _ => Isa::Reserved,
        }
    }

    /// The byte that encodes this instruction.
    pub fn into(self) -> (r: u8)
        requires
            self != Isa::Reserved,
        ensures
            r == spec_isa_code(self),
    {
        match self {
            Isa::Reserved => 0,
            Isa::Unreachable => 0x00,
            Isa::Nop => 0x01,
            Isa::Block => 0x02,
            Isa::Loop => 0x03,
            Isa::If => 0x04,
            Isa::Else => 0x05,
            Isa::End => 0x0b,
            Isa::Br => 0x0c,
            Isa::BrIf => 0x0d,
            Isa::BrTable => 0x0e,
            Isa::Return => 0x0f,
            Isa::Call => 0x10,
            Isa::CallIndirect => 0x11,
            Isa::Select => 0x1b,
            Isa::DropInst => 0x1a,
            Isa::I32Const => 0x41,
            Isa::I64Const => 0x42,
            Isa::F32Const => 0x43,
            Isa::F64Const => 0x44,
            Isa::GetLocal => 0x20,
            Isa::TeeLocal => 0x22,
            Isa::SetLocal => 0x21,
            Isa::GetGlobal => 0x23,
            Isa::SetGlobal => 0x24,
            Isa::I32Load => 0x28,
            Isa::I64Load => 0x29,
            Isa::F32Load => 0x2a,
            Isa::F64Load => 0x2b,
            Isa::I32Load8Sign => 0x2c,
            Isa::I32Load8Unsign => 0x2d,
            Isa::I32Load16Sign => 0x2e,
            Isa::I32Load16Unsign => 0x2f,
            Isa::I64Load8Sign => 0x30,
            Isa::I64Load8Unsign => 0x31,
            Isa::I64Load16Sign => 0x32,
            Isa::I64Load16Unsign => 0x33,
            Isa::I64Load32Sign => 0x34,
            Isa::I64Load32Unsign => 0x35,
            Isa::I32Store => 0x36,
            Isa::I64Store => 0x37,
            Isa::F32Store => 0x38,
            Isa::F64Store => 0x39,
            Isa::I32Store8 => 0x3a,
            Isa::I32Store16 => 0x3b,
            Isa::I64Store8 => 0x3c,
            Isa::I64Store16 => 0x3d,
            Isa::I64Store32 => 0x3e,
            Isa::MemorySize => 0x3f,
            Isa::MemoryGrow => 0x40,
            Isa::I32CountLeadingZero => 0x67,
            Isa::I32CountTrailingZero => 0x68,
            Isa::I32CountNonZero => 0x69,
            Isa::I32Add => 0x6a,
            Isa::I32Sub => 0x6b,
            Isa::I32Mul => 0x6c,
            Isa::I32WrapI64 => 0xa7,
            Isa::I32DivSign => 0x6d,
            Isa::I32DivUnsign => 0x6e,
            Isa::I32RemSign => 0x6f,
            Isa::I32RemUnsign => 0x70,
            Isa::I32And => 0x71,
            Isa::I32Or => 0x72,
            Isa::I32Xor => 0x73,
            Isa::I32ShiftLeft => 0x74,
            Isa::I32ShiftRIghtSign => 0x75,
            Isa::I32ShiftRightUnsign => 0x76,
            Isa::I32RotateLeft => 0x77,
            Isa::I32RotateRight => 0x78,
            Isa::I64CountLeadingZero => 0x79,
            Isa::I64CountTrailingZero => 0x7a,
            Isa::I64CountNonZero => 0x7b,
            Isa::I64Add => 0x7c,
            Isa::I64Sub => 0x7d,
            Isa::I64Mul => 0x7e,
            Isa::I64DivSign => 0x7f,
            Isa::I64DivUnsign => 0x80,
            Isa::I64RemSign => 0x81,
            Isa::I64RemUnsign => 0x82,
            Isa::I64And => 0x83,
            Isa::I64Or => 0x84,
            Isa::I64Xor => 0x85,
            Isa::I64ShiftLeft => 0x86,
            Isa::I64ShiftRightSign => 0x87,
            Isa::I64ShiftRightUnsign => 0x88,
            Isa::I64RotateLeft => 0x89,
            Isa::I64RotateRight => 0x8a,
            Isa::I32EqualZero => 0x45,
            Isa::I32Equal => 0x46,
            Isa::I32NotEqual => 0x47,
            Isa::I32LessThanSign => 0x48,
            Isa::I32LessThanUnsign => 0x49,
            Isa::I32GreaterThanSign => 0x4a,
            Isa::I32GreaterThanUnsign => 0x4b,
            Isa::I32LessEqualSign => 0x4c,
            Isa::I32LessEqualUnsign => 0x4d,
            Isa::I32GreaterEqualSign => 0x4e,
            Isa::I32GreaterEqualUnsign => 0x4f,
            Isa::I64EqualZero => 0x50,
            Isa::I64Equal => 0x51,
            Isa::I64NotEqual => 0x52,
            Isa::I64LessThanSign => 0x53,
            Isa::I64LessThanUnSign => 0x54,
            Isa::I64GreaterThanSign => 0x55,
            Isa::I64GreaterThanUnSign => 0x56,
            Isa::I64LessEqualSign => 0x57,
            Isa::I64LessEqualUnSign => 0x58,
            Isa::I64GreaterEqualSign => 0x59,
            Isa::I64GreaterEqualUnSign => 0x5a,
            Isa::F32Equal => 0x5b,
            Isa::F32NotEqual => 0x5c,
            Isa::F32LessThan => 0x5d,
            Isa::F32GreaterThan => 0x5e,
            Isa::F32LessEqual => 0x5f,
            Isa::F32GreaterEqual => 0x60,
            Isa::F64Equal => 0x61,
            Isa::F64NotEqual => 0x62,
            Isa::F64LessThan => 0x63,
            Isa::F64GreaterThan => 0x64,
            Isa::F64LessEqual => 0x65,
            Isa::F64GreaterEqual => 0x66,
            Isa::F32Abs => 0x8b,
            Isa::F32Neg => 0x8c,
            Isa::F32Ceil => 0x8d,
            Isa::F32Floor => 0x8e,
            Isa::F32Trunc => 0x8f,
            Isa::F32Nearest => 0x90,
            Isa::F32Sqrt => 0x91,
            Isa::F32Add => 0x92,
            Isa::F32Sub => 0x93,
            Isa::F32Mul => 0x94,
            Isa::F32Div => 0x95,
            Isa::F32Min => 0x96,
            Isa::F32Max => 0x97,
            Isa::F32Copysign => 0x98,
            Isa::F64Abs => 0x99,
            Isa::F64Neg => 0x9a,
            Isa::F64Ceil => 0x9b,
            Isa::F64Floor => 0x9c,
            Isa::F64Trunc => 0x9d,
            Isa::F64Nearest => 0x9e,
            Isa::F64Sqrt => 0x9f,
            Isa::F64Add => 0xa0,
            Isa::F64Sub => 0xa1,
            Isa::F64Mul => 0xa2,
            Isa::F64Div => 0xa3,
            Isa::F64Min => 0xa4,
            Isa::F64Max => 0xa5,
            Isa::F64Copysign => 0xa6,
            Isa::I32TruncSignF32 => 0xa8,
            Isa::I32TruncUnsignF32 => 0xa9,
            Isa::I32TruncSignF64 => 0xaa,
            Isa::I32TruncUnsignF64 => 0xab,
            Isa::I64ExtendSignI32 => 0xac,
            Isa::I64ExtendUnsignI32 => 0xad,
            Isa::I64TruncSignF32 => 0xae,
            Isa::I64TruncUnsignF32 => 0xaf,
            Isa::I64TruncSignF64 => 0xb0,
            Isa::I64TruncUnsignF64 => 0xb1,
            Isa::F32ConvertSignI32 => 0xb2,
            Isa::F32ConvertUnsignI32 => 0xb3,
            Isa::F32ConvertSignI64 => 0xb4,
            Isa::F32ConvertUnsignI64 => 0xb5,
            Isa::F32DemoteF64 => 0xb6,
            Isa::F64ConvertSignI32 => 0xb7,
            Isa::F64ConvertUnsignI32 => 0xb8,
            Isa::F64ConvertSignI64 => 0xb9,
            Isa::F64ConvertUnsignI64 => 0xba,
            Isa::F64PromoteF32 => 0xbb,
            Isa::I32ReinterpretF32 => 0xbc,
            Isa::I64ReinterpretF64 => 0xbd,
            Isa::F32ReinterpretI32 => 0xbe,
            Isa::F64ReinterpretI64 => 0xbf,
        }
    }

    /// Whether the byte, if any, ends a block (`else` or `end`).
    pub fn is_else_or_end(code: Option<u8>) -> (r: bool)
        ensures
            r == (code == Some(0x05u8) || code == Some(0x0bu8)),
    {
        match code {
            Some(0x5) | Some(0x0b) => true,
            _ => false,
        }
    }
}

/// Encoding an instruction and decoding the byte gives the instruction back.
pub proof fn lemma_isa_code_roundtrip(isa: Isa)
    requires
        isa != Isa::Reserved,
    ensures
        is_isa_code(spec_isa_code(isa)),
        spec_isa_from(spec_isa_code(isa)) == isa,
{
}

/// Decoding a byte of an instruction and encoding it gives the byte back.
pub proof fn lemma_isa_byte_roundtrip(code: u8)
    requires
        is_isa_code(code),
        spec_isa_from(code) != Isa::Reserved,
    ensures
        spec_isa_code(spec_isa_from(code)) == code,
{
}

/// A part of an instruction stream: an opcode or a raw byte.
pub enum ComposedCode {
    Code(Isa),
    Byte(u8),
}

/// The byte of one part of an instruction stream.
pub open spec fn spec_composed_byte(c: ComposedCode) -> u8 {
    match c {
        ComposedCode::Code(isa) => spec_isa_code(isa),
        ComposedCode::Byte(b) => b,
    }
}

/// Writes an instruction stream as bytes. Reserved opcodes have no byte and are left out.
pub fn into_vec_u8(this: &[ComposedCode]) -> (r: Vec<u8>)
    requires
        forall|i: int| 0 <= i < this@.len() ==> !(#[trigger] this@[i] matches ComposedCode::Code(Isa::Reserved)),
    ensures
        r@ == this@.map_values(|c: ComposedCode| spec_composed_byte(c)),
{
    let mut r: Vec<u8> = Vec::new();
    let mut i: usize = 0;
    while i < this.len()
        invariant
            i <= this@.len(),
            forall|j: int| 0 <= j < this@.len() ==> !(#[trigger] this@[j] matches ComposedCode::Code(Isa::Reserved)),
            r@ == this@.subrange(0, i as int).map_values(|c: ComposedCode| spec_composed_byte(c)),
        decreases this@.len() - i,
    {
        let b = match &this[i] {
            ComposedCode::Code(code) => Isa::into(*code),
            ComposedCode::Byte(byte) => *byte,
        };
        r.push(b);
        proof {
            assert(this@.subrange(0, i + 1) == this@.subrange(0, i as int).push(this@[i as int]));
        }
        i = i + 1;
    }
    proof {
        assert(this@.subrange(0, i as int) == this@);
    }
    r
}

/// What an instruction leaves on the stack: a value of one type, nothing, or
/// what depends on its context.
#[derive(Debug, Clone, Copy, PartialEq, Eq, Structural)]
pub enum TypeKind {
    Canonical(ValueTypes),
    Polymophic,
    Void,
}

/// What each instruction leaves on the stack, by the type its name starts
/// with; stores, `drop`, `local.set`, `global.set`, `else` and `end` leave
/// nothing, and control instructions, calls, `select`, `local.get`,
/// `local.tee` and `global.get` depend on their context.
pub open spec fn spec_type_kind(isa: Isa) -> TypeKind {
    match isa {
        Isa::I32Const
        | Isa::I32CountLeadingZero
        | Isa::I32CountTrailingZero
        | Isa::I32CountNonZero
        | Isa::I32Add
        | Isa::I32Sub
        | Isa::I32Mul
        | Isa::I32DivSign
        | Isa::I32DivUnsign
        | Isa::I32RemSign
        | Isa::I32RemUnsign
        | Isa::I32And
        | Isa::I32Or
        | Isa::I32Xor
        | Isa::I32ShiftLeft
        | Isa::I32ShiftRIghtSign
        | Isa::I32ShiftRightUnsign
        | Isa::I32RotateLeft
        | Isa::I32RotateRight
        | Isa::I32EqualZero
        | Isa::I32Equal
        | Isa::I32NotEqual
        | Isa::I32LessThanSign
        | Isa::I32LessThanUnsign
        | Isa::I32GreaterThanSign
        | Isa::I32GreaterThanUnsign
        | Isa::I32LessEqualSign
        | Isa::I32LessEqualUnsign
        | Isa::I32GreaterEqualSign
        | Isa::I32GreaterEqualUnsign
        | Isa::I32Load
        | Isa::I32Load8Sign
        | Isa::I32Load8Unsign
        | Isa::I32Load16Sign
        | Isa::I32Load16Unsign
        | Isa::MemorySize
        | Isa::MemoryGrow
        | Isa::I32WrapI64
        | Isa::I32TruncUnsignF32
        | Isa::I32TruncUnsignF64
        | Isa::I32TruncSignF32
        | Isa::I32TruncSignF64
        | Isa::I32ReinterpretF32 => TypeKind::Canonical(ValueTypes::I32),
        Isa::I64Const
        | Isa::I64CountLeadingZero
        | Isa::I64CountTrailingZero
        | Isa::I64CountNonZero
        | Isa::I64Add
        | Isa::I64Sub
        | Isa::I64Mul
        | Isa::I64DivSign
        | Isa::I64DivUnsign
        | Isa::I64RemSign
        | Isa::I64RemUnsign
        | Isa::I64And
        | Isa::I64Or
        | Isa::I64Xor
        | Isa::I64ShiftLeft
        | Isa::I64ShiftRightSign
        | Isa::I64ShiftRightUnsign
        | Isa::I64RotateLeft
        | Isa::I64RotateRight
        | Isa::I64EqualZero
        | Isa::I64Equal
        | Isa::I64NotEqual
        | Isa::I64LessThanSign
        | Isa::I64LessThanUnSign
        | Isa::I64GreaterThanSign
        | Isa::I64GreaterThanUnSign
        | Isa::I64LessEqualSign
        | Isa::I64LessEqualUnSign
        | Isa::I64GreaterEqualSign
        | Isa::I64GreaterEqualUnSign
        | Isa::I64Load
        | Isa::I64Load8Sign
        | Isa::I64Load8Unsign
        | Isa::I64Load16Sign
        | Isa::I64Load16Unsign
        | Isa::I64Load32Sign
        | Isa::I64Load32Unsign
        | Isa::I64ExtendSignI32
        | Isa::I64ExtendUnsignI32
        | Isa::I64TruncSignF32
        | Isa::I64TruncUnsignF32
        | Isa::I64TruncSignF64
        | Isa::I64TruncUnsignF64
        | Isa::I64ReinterpretF64 => TypeKind::Canonical(ValueTypes::I64),
        Isa::F32Const
        | Isa::F32Equal
        | Isa::F32NotEqual
        | Isa::F32LessThan
        | Isa::F32GreaterThan
        | Isa::F32LessEqual
        | Isa::F32GreaterEqual
        | Isa::F32Abs
        | Isa::F32Neg
        | Isa::F32Ceil
        | Isa::F32Floor
        | Isa::F32Trunc
        | Isa::F32Nearest
        | Isa::F32Sqrt
        | Isa::F32Add
        | Isa::F32Sub
        | Isa::F32Mul
        | Isa::F32Div
        | Isa::F32Min
        | Isa::F32Max
        | Isa::F32Copysign
        | Isa::F32Load
        | Isa::F32ConvertSignI32
        | Isa::F32ConvertUnsignI32
        | Isa::F32ConvertSignI64
        | Isa::F32ConvertUnsignI64
        | Isa::F32DemoteF64
        | Isa::F32ReinterpretI32 => TypeKind::Canonical(ValueTypes::F32),
        Isa::F64Const
        | Isa::F64Equal
        | Isa::F64NotEqual
        | Isa::F64LessThan
        | Isa::F64GreaterThan
        | Isa::F64LessEqual
        | Isa::F64GreaterEqual
        | Isa::F64Abs
        | Isa::F64Neg
        | Isa::F64Ceil
        | Isa::F64Floor
        | Isa::F64Trunc
        | Isa::F64Nearest
        | Isa::F64Sqrt
        | Isa::F64Add
        | Isa::F64Sub
        | Isa::F64Mul
        | Isa::F64Div
        | Isa::F64Min
        | Isa::F64Max
        | Isa::F64Copysign
        | Isa::F64Load
        | Isa::F64ConvertSignI32
        | Isa::F64ConvertUnsignI32
        | Isa::F64ConvertSignI64
        | Isa::F64ConvertUnsignI64
        | Isa::F64PromoteF32
        | Isa::F64ReinterpretI64 => TypeKind::Canonical(ValueTypes::F64),
        Isa::Nop
        | Isa::DropInst
        | Isa::SetLocal
        | Isa::SetGlobal
        | Isa::I32Store
        | Isa::I64Store
        | Isa::F32Store
        | Isa::F64Store
        | Isa::I32Store8
        | Isa::I32Store16
        | Isa::I64Store8
        | Isa::I64Store16
        | Isa::I64Store32
        | Isa::Else
        | Isa::End
        | Isa::Reserved => TypeKind::Void,
        Isa::Unreachable
        | Isa::Block
        | Isa::If
        | Isa::Loop
        | Isa::Br
        | Isa::BrIf
        | Isa::BrTable
        | Isa::Return
        | Isa::Call
        | Isa::CallIndirect
        | Isa::GetGlobal
        | Isa::Select
        | Isa::GetLocal
        | Isa::TeeLocal => TypeKind::Polymophic,
    }
}

impl Isa {
    /// What the instruction leaves on the stack.
    pub fn type_kind(self) -> (r: TypeKind)
        ensures
            r == spec_type_kind(self),
    {
        match self {
            Isa::I32Const
            | Isa::I32CountLeadingZero
            | Isa::I32CountTrailingZero
            | Isa::I32CountNonZero
            | Isa::I32Add
            | Isa::I32Sub
            | Isa::I32Mul
            | Isa::I32DivSign
            | Isa::I32DivUnsign
            | Isa::I32RemSign
            | Isa::I32RemUnsign
            | Isa::I32And
            | Isa::I32Or
            | Isa::I32Xor
            | Isa::I32ShiftLeft
            | Isa::I32ShiftRIghtSign
            | Isa::I32ShiftRightUnsign
            | Isa::I32RotateLeft
            | Isa::I32RotateRight
            | Isa::I32EqualZero
            | Isa::I32Equal
            | Isa::I32NotEqual
            | Isa::I32LessThanSign
            | Isa::I32LessThanUnsign
            | Isa::I32GreaterThanSign
            | Isa::I32GreaterThanUnsign
            | Isa::I32LessEqualSign
            | Isa::I32LessEqualUnsign
            | Isa::I32GreaterEqualSign
            | Isa::I32GreaterEqualUnsign
            | Isa::I32Load
            | Isa::I32Load8Sign
            | Isa::I32Load8Unsign
            | Isa::I32Load16Sign
            | Isa::I32Load16Unsign
            | Isa::MemorySize
            | Isa::MemoryGrow
            | Isa::I32WrapI64
            | Isa::I32TruncUnsignF32
            | Isa::I32TruncUnsignF64
            | Isa::I32TruncSignF32
            | Isa::I32TruncSignF64
            | Isa::I32ReinterpretF32 => TypeKind::Canonical(ValueTypes::I32),
            Isa::I64Const
            | Isa::I64CountLeadingZero
            | Isa::I64CountTrailingZero
            | Isa::I64CountNonZero
            | Isa::I64Add
            | Isa::I64Sub
            | Isa::I64Mul
            | Isa::I64DivSign
            | Isa::I64DivUnsign
            | Isa::I64RemSign
            | Isa::I64RemUnsign
            | Isa::I64And
            | Isa::I64Or
            | Isa::I64Xor
            | Isa::I64ShiftLeft
            | Isa::I64ShiftRightSign
            | Isa::I64ShiftRightUnsign
            | Isa::I64RotateLeft
            | Isa::I64RotateRight
            | Isa::I64EqualZero
            | Isa::I64Equal
            | Isa::I64NotEqual
            | Isa::I64LessThanSign
            | Isa::I64LessThanUnSign
            | Isa::I64GreaterThanSign
            | Isa::I64GreaterThanUnSign
            | Isa::I64LessEqualSign
            | Isa::I64LessEqualUnSign
            | Isa::I64GreaterEqualSign
            | Isa::I64GreaterEqualUnSign
            | Isa::I64Load
            | Isa::I64Load8Sign
            | Isa::I64Load8Unsign
            | Isa::I64Load16Sign
            | Isa::I64Load16Unsign
            | Isa::I64Load32Sign
            | Isa::I64Load32Unsign
            | Isa::I64ExtendSignI32
            | Isa::I64ExtendUnsignI32
            | Isa::I64TruncSignF32
            | Isa::I64TruncUnsignF32
            | Isa::I64TruncSignF64
            | Isa::I64TruncUnsignF64
            | Isa::I64ReinterpretF64 => TypeKind::Canonical(ValueTypes::I64),
            Isa::F32Const
            | Isa::F32Equal
            | Isa::F32NotEqual
            | Isa::F32LessThan
            | Isa::F32GreaterThan
            | Isa::F32LessEqual
            | Isa::F32GreaterEqual
            | Isa::F32Abs
            | Isa::F32Neg
            | Isa::F32Ceil
            | Isa::F32Floor
            | Isa::F32Trunc
            | Isa::F32Nearest
            | Isa::F32Sqrt
            | Isa::F32Add
            | Isa::F32Sub
            | Isa::F32Mul
            | Isa::F32Div
            | Isa::F32Min
            | Isa::F32Max
            | Isa::F32Copysign
            | Isa::F32Load
            | Isa::F32ConvertSignI32
            | Isa::F32ConvertUnsignI32
            | Isa::F32ConvertSignI64
            | Isa::F32ConvertUnsignI64
            | Isa::F32DemoteF64
            | Isa::F32ReinterpretI32 => TypeKind::Canonical(ValueTypes::F32),
            Isa::F64Const
            | Isa::F64Equal
            | Isa::F64NotEqual
            | Isa::F64LessThan
            | Isa::F64GreaterThan
            | Isa::F64LessEqual
            | Isa::F64GreaterEqual
            | Isa::F64Abs
            | Isa::F64Neg
            | Isa::F64Ceil
            | Isa::F64Floor
            | Isa::F64Trunc
            | Isa::F64Nearest
            | Isa::F64Sqrt
            | Isa::F64Add
            | Isa::F64Sub
            | Isa::F64Mul
            | Isa::F64Div
            | Isa::F64Min
            | Isa::F64Max
            | Isa::F64Copysign
            | Isa::F64Load
            | Isa::F64ConvertSignI32
            | Isa::F64ConvertUnsignI32
            | Isa::F64ConvertSignI64
            | Isa::F64ConvertUnsignI64
            | Isa::F64PromoteF32
            | Isa::F64ReinterpretI64 => TypeKind::Canonical(ValueTypes::F64),
            Isa::Nop
            | Isa::DropInst
            | Isa::SetLocal
            | Isa::SetGlobal
            | Isa::I32Store
            | Isa::I64Store
            | Isa::F32Store
            | Isa::F64Store
            | Isa::I32Store8
            | Isa::I32Store16
            | Isa::I64Store8
            | Isa::I64Store16
            | Isa::I64Store32
            | Isa::Else
            | Isa::End
            | Isa::Reserved => TypeKind::Void,
            Isa::Unreachable
            | Isa::Block
            | Isa::If
            | Isa::Loop
            | Isa::Br
            | Isa::BrIf
            | Isa::BrTable
            | Isa::Return
            | Isa::Call
            | Isa::CallIndirect
            | Isa::GetGlobal
            | Isa::Select
            | Isa::GetLocal
            | Isa::TeeLocal => TypeKind::Polymophic,
        }
    }
}

} // verus!
