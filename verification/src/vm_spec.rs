//! What one step of the runtime does, as a function from the state of the
//! machine to the next state.
//!
//! A function body is read in its byte form: each opcode, then its immediates
//! as little-endian words. Values and labels share the operand stack; the
//! locals of the running function sit in the slots from the frame pointer up,
//! below the label of its frame.
use vstd::prelude::*;
use crate::context::{Check, raw_u32_at, spec_check};
use crate::error::Trap;
use crate::function::FuncView;
use crate::instruction::{from_le_bytes_u64, le_bytes_u32, le_bytes_u64, lemma_from_le_bytes_u32, lemma_from_le_bytes_u64};
use crate::isa::{Isa, is_isa_code, spec_isa_from};
use crate::label::{Label, LabelKind};
use crate::memory::{Limit, PAGE_SIZE, le_value, mem_range, spec_allocate, value_bytes, lemma_load_after_store_32, lemma_load_after_store_64, word_32, word_64};
use crate::stack::{StackEntry, StackView, lemma_pop_values};
use crate::value::{Values, int_pair, is_int, bool_i32, trunc_div, trunc_rem, rotl32, rotl64, leading_zeros,
    trailing_zeros, ones, int_bits, spec_reinterpret};
use crate::value_type::{ValueTypes, spec_value_type};

verus! {

/// A call in progress: the function, the position of its next instruction,
/// and the frame pointer of its caller.
#[derive(Debug, Clone, Copy, PartialEq, Eq, Structural)]
pub struct Frame {
    pub function: usize,
    pub ptr: usize,
    pub prev_frame_ptr: usize,
}

/// What a step leaves to do: go on, nothing (no call is left), a float
/// instruction, whose operands are still on the stack, for the embedder to
/// compute, or a call of a host function, whose arguments are still on the
/// stack, for the embedder to run and push the results of.
#[derive(Debug, Clone, Copy, PartialEq, Eq, Structural)]
pub enum Outcome {
    Continue,
    Finished,
    Float(u8),
    Host(u32),
}

/// The linear memory as the runtime sees it: the bytes written so far (an
/// address past them reads as zero), the size in bytes, and the limits.
pub struct MemState {
    pub data: Seq<u8>,
    pub size: u32,
    pub limit: Limit,
}

/// The state of the machine: the operand stack, the calls in progress (the
/// running one last), the values of the globals and the memory.
pub struct VmState {
    pub stack: StackView,
    pub frames: Seq<Frame>,
    pub globals: Seq<Values>,
    pub memory: Option<MemState>,
}

/// What stays fixed while a module runs: its functions, its function types
/// and its table of function indices.
pub struct Program {
    pub functions: Seq<FuncView>,
    pub types: Seq<(Seq<ValueTypes>, Seq<ValueTypes>)>,
    pub table: Option<Seq<Option<u32>>>,
}

/// A body must be shorter than this: the machine keeps positions in a body,
/// and the end of a body in the label of its frame, as 32-bit numbers.
pub const MAX_BODY_LEN: usize = 0xffff_ff00;

impl Program {
    /// Every body fits the bound.
    pub open spec fn wf(self) -> bool {
        forall|i: int| 0 <= i < self.functions.len() ==> #[trigger] self.functions[i].body.len() < MAX_BODY_LEN
    }
}

impl VmState {
    /// The state with the running call continuing at `q`.
    pub open spec fn at(self, q: nat) -> VmState {
        let last = self.frames.len() - 1;
        VmState { frames: self.frames.update(last, Frame { ptr: q as usize, ..self.frames[last] }), ..self }
    }

    /// The state with another operand stack.
    pub open spec fn with_stack(self, st: StackView) -> VmState {
        VmState { stack: st, ..self }
    }
}

/// The eight bytes at `p`, least significant first.
pub open spec fn raw_u64_at(body: Seq<u8>, p: nat) -> Option<u64> {
    if p + 8 <= body.len() {
        Some(from_le_bytes_u64(body.subrange(p as int, p + 8int)))
    } else {
        None
    }
}

/// A step that goes on, from what an instruction made of the state.
pub open spec fn cont(r: Result<VmState, Trap>) -> Result<(Outcome, VmState), Trap> {
    match r {
        Ok(s) => Ok((Outcome::Continue, s)),
        Err(e) => Err(e),
    }
}

/// The value a local of type `t` starts with; a local has no unit type.
pub open spec fn zero_value(t: ValueTypes) -> Values {
    match t {
        ValueTypes::I64 => Values::I64(0),
        ValueTypes::F32 => Values::F32(0),
        ValueTypes::F64 => Values::F64(0),
        _ => Values::I32(0),
    }
}

/// The entries that the declared locals start with, unless one has the unit type.
pub open spec fn zero_entries(types: Seq<ValueTypes>) -> Option<Seq<StackEntry>> {
    if exists|i: int| 0 <= i < types.len() && types[i] == ValueTypes::Unit {
        None
    } else {
        Some(types.map_values(|t: ValueTypes| StackEntry::Value(zero_value(t))))
    }
}

/// The type of the first result, or the unit type.
pub open spec fn first_or_unit(types: Seq<ValueTypes>) -> ValueTypes {
    if types.len() > 0 {
        types[0]
    } else {
        ValueTypes::Unit
    }
}

/// The instructions of two operands that the runtime computes on integers.
#[derive(Debug, Clone, Copy, PartialEq, Eq, Structural)]
pub enum BinOp {
    Add, Sub, Mul, DivS, DivU, RemS, RemU, And, Or, Xor, Shl, ShrS, ShrU, Rotl, Rotr,
    Eq, Ne, LtS, LtU, GtS, GtU, LeS, LeU, GeS, GeU,
}

/// The instructions of one operand that the runtime computes on integers or bits.
#[derive(Debug, Clone, Copy, PartialEq, Eq, Structural)]
pub enum UnOp {
    Eqz, Clz, Ctz, Popcnt, Wrap, ExtendS, ExtendU, Reinterpret,
}

/// How a load reads memory: how many bits, whether it extends the sign, and
/// which value it makes.
#[derive(Debug, Clone, Copy, PartialEq, Eq, Structural)]
pub struct LoadKind {
    pub bits: u32,
    pub signed: bool,
    pub wide: bool,
    pub float: bool,
}

/// The operation of an integer instruction of two operands.
pub open spec fn binary_op(isa: Isa) -> Option<BinOp> {
    match isa {
        Isa::I32Add | Isa::I64Add => Some(BinOp::Add),
        Isa::I32Sub | Isa::I64Sub => Some(BinOp::Sub),
        Isa::I32Mul | Isa::I64Mul => Some(BinOp::Mul),
        Isa::I32DivSign | Isa::I64DivSign => Some(BinOp::DivS),
        Isa::I32DivUnsign | Isa::I64DivUnsign => Some(BinOp::DivU),
        Isa::I32RemSign | Isa::I64RemSign => Some(BinOp::RemS),
        Isa::I32RemUnsign | Isa::I64RemUnsign => Some(BinOp::RemU),
        Isa::I32And | Isa::I64And => Some(BinOp::And),
        Isa::I32Or | Isa::I64Or => Some(BinOp::Or),
        Isa::I32Xor | Isa::I64Xor => Some(BinOp::Xor),
        Isa::I32ShiftLeft | Isa::I64ShiftLeft => Some(BinOp::Shl),
        Isa::I32ShiftRIghtSign | Isa::I64ShiftRightSign => Some(BinOp::ShrS),
        Isa::I32ShiftRightUnsign | Isa::I64ShiftRightUnsign => Some(BinOp::ShrU),
        Isa::I32RotateLeft | Isa::I64RotateLeft => Some(BinOp::Rotl),
        Isa::I32RotateRight | Isa::I64RotateRight => Some(BinOp::Rotr),
        Isa::I32Equal | Isa::I64Equal => Some(BinOp::Eq),
        Isa::I32NotEqual | Isa::I64NotEqual => Some(BinOp::Ne),
        Isa::I32LessThanSign | Isa::I64LessThanSign => Some(BinOp::LtS),
        Isa::I32LessThanUnsign | Isa::I64LessThanUnSign => Some(BinOp::LtU),
        Isa::I32GreaterThanSign | Isa::I64GreaterThanSign => Some(BinOp::GtS),
        Isa::I32GreaterThanUnsign | Isa::I64GreaterThanUnSign => Some(BinOp::GtU),
        Isa::I32LessEqualSign | Isa::I64LessEqualSign => Some(BinOp::LeS),
        Isa::I32LessEqualUnsign | Isa::I64LessEqualUnSign => Some(BinOp::LeU),
        Isa::I32GreaterEqualSign | Isa::I64GreaterEqualSign => Some(BinOp::GeS),
        Isa::I32GreaterEqualUnsign | Isa::I64GreaterEqualUnSign => Some(BinOp::GeU),
        _ => None,
    }
}

/// The operation of an instruction of one operand computed on integers or bits.
pub open spec fn unary_op(isa: Isa) -> Option<UnOp> {
    match isa {
        Isa::I32EqualZero | Isa::I64EqualZero => Some(UnOp::Eqz),
        Isa::I32CountLeadingZero | Isa::I64CountLeadingZero => Some(UnOp::Clz),
        Isa::I32CountTrailingZero | Isa::I64CountTrailingZero => Some(UnOp::Ctz),
        Isa::I32CountNonZero | Isa::I64CountNonZero => Some(UnOp::Popcnt),
        Isa::I32WrapI64 => Some(UnOp::Wrap),
        Isa::I64ExtendSignI32 => Some(UnOp::ExtendS),
        Isa::I64ExtendUnsignI32 => Some(UnOp::ExtendU),
        Isa::I32ReinterpretF32 | Isa::I64ReinterpretF64 | Isa::F32ReinterpretI32 | Isa::F64ReinterpretI64 => Some(
            UnOp::Reinterpret,
        ),
        _ => None,
    }
}

/// How a load instruction reads memory.
pub open spec fn load_kind(isa: Isa) -> Option<LoadKind> {
    match isa {
        Isa::I32Load => Some(LoadKind { bits: 32, signed: true, wide: false, float: false }),
        Isa::I32Load8Sign => Some(LoadKind { bits: 8, signed: true, wide: false, float: false }),
        Isa::I32Load8Unsign => Some(LoadKind { bits: 8, signed: false, wide: false, float: false }),
        Isa::I32Load16Sign => Some(LoadKind { bits: 16, signed: true, wide: false, float: false }),
        Isa::I32Load16Unsign => Some(LoadKind { bits: 16, signed: false, wide: false, float: false }),
        Isa::I64Load => Some(LoadKind { bits: 64, signed: true, wide: true, float: false }),
        Isa::I64Load8Sign => Some(LoadKind { bits: 8, signed: true, wide: true, float: false }),
        Isa::I64Load8Unsign => Some(LoadKind { bits: 8, signed: false, wide: true, float: false }),
        Isa::I64Load16Sign => Some(LoadKind { bits: 16, signed: true, wide: true, float: false }),
        Isa::I64Load16Unsign => Some(LoadKind { bits: 16, signed: false, wide: true, float: false }),
        Isa::I64Load32Sign => Some(LoadKind { bits: 32, signed: true, wide: true, float: false }),
        Isa::I64Load32Unsign => Some(LoadKind { bits: 32, signed: false, wide: true, float: false }),
        Isa::F32Load => Some(LoadKind { bits: 32, signed: false, wide: false, float: true }),
        Isa::F64Load => Some(LoadKind { bits: 64, signed: false, wide: true, float: true }),
        _ => None,
    }
}

/// How many bits a store instruction writes.
pub open spec fn store_bits(isa: Isa) -> Option<u32> {
    match isa {
        Isa::I32Store | Isa::F32Store | Isa::I64Store32 => Some(32u32),
        Isa::I64Store | Isa::F64Store => Some(64u32),
        Isa::I32Store8 | Isa::I64Store8 => Some(8u32),
        Isa::I32Store16 | Isa::I64Store16 => Some(16u32),
        _ => None,
    }
}

/// The instructions that compute on floats: their comparisons, arithmetic
/// and conversions.
pub open spec fn is_float_op(isa: Isa) -> bool {
    match isa {
        Isa::F32Equal | Isa::F32NotEqual | Isa::F32LessThan | Isa::F32GreaterThan | Isa::F32LessEqual
        | Isa::F32GreaterEqual | Isa::F64Equal | Isa::F64NotEqual | Isa::F64LessThan | Isa::F64GreaterThan
        | Isa::F64LessEqual | Isa::F64GreaterEqual | Isa::F32Abs | Isa::F32Neg | Isa::F32Ceil | Isa::F32Floor
        | Isa::F32Trunc | Isa::F32Nearest | Isa::F32Sqrt | Isa::F32Add | Isa::F32Sub | Isa::F32Mul | Isa::F32Div
        | Isa::F32Min | Isa::F32Max | Isa::F32Copysign | Isa::F64Abs | Isa::F64Neg | Isa::F64Ceil | Isa::F64Floor
        | Isa::F64Trunc | Isa::F64Nearest | Isa::F64Sqrt | Isa::F64Add | Isa::F64Sub | Isa::F64Mul | Isa::F64Div
        | Isa::F64Min | Isa::F64Max | Isa::F64Copysign | Isa::I32TruncSignF32 | Isa::I32TruncUnsignF32
        | Isa::I32TruncSignF64 | Isa::I32TruncUnsignF64 | Isa::I64TruncSignF32 | Isa::I64TruncUnsignF32
        | Isa::I64TruncSignF64 | Isa::I64TruncUnsignF64 | Isa::F32ConvertSignI32 | Isa::F32ConvertUnsignI32
        | Isa::F32ConvertSignI64 | Isa::F32ConvertUnsignI64 | Isa::F32DemoteF64 | Isa::F64ConvertSignI32
        | Isa::F64ConvertUnsignI32 | Isa::F64ConvertSignI64 | Isa::F64ConvertUnsignI64 | Isa::F64PromoteF32 => true,
        _ => false,
    }
}

/// 1 or 0 as a comparison of two integers of one width comes out, signed or not.
pub open spec fn compare(l: Values, r: Values, greater: bool, or_equal: bool, unsigned: bool) -> Values {
    l.compare_spec(r, greater, or_equal, unsigned)
}

/// What an integer instruction of two operands gives; operands that are not
/// integers of one width are a type mismatch.
pub open spec fn binary_result(op: BinOp, l: Values, r: Values) -> Result<Values, Trap> {
    if !int_pair(l, r) {
        Err(Trap::TypeMismatch)
    } else {
        match op {
            BinOp::Add => Ok(match (l, r) {
                (Values::I32(a), Values::I32(b)) => Values::I32(a.wrapping_add(b)),
                (Values::I64(a), Values::I64(b)) => Values::I64(a.wrapping_add(b)),
                _ => l,
            }),
            BinOp::Sub => Ok(match (l, r) {
                (Values::I32(a), Values::I32(b)) => Values::I32(a.wrapping_sub(b)),
                (Values::I64(a), Values::I64(b)) => Values::I64(a.wrapping_sub(b)),
                _ => l,
            }),
            BinOp::Mul => Ok(match (l, r) {
                (Values::I32(a), Values::I32(b)) => Values::I32(a.wrapping_mul(b)),
                (Values::I64(a), Values::I64(b)) => Values::I64(a.wrapping_mul(b)),
                _ => l,
            }),
            BinOp::DivS => match (l, r) {
                (Values::I32(a), Values::I32(d)) => if d == 0 {
                    Err(Trap::DivisionByZero)
                } else if a == i32::MIN && d == -1 {
                    Err(Trap::DivisionOverflow)
                } else {
                    Ok(Values::I32(trunc_div(a as int, d as int) as i32))
                },
                (Values::I64(a), Values::I64(d)) => if d == 0 {
                    Err(Trap::DivisionByZero)
                } else if a == i64::MIN && d == -1 {
                    Err(Trap::DivisionOverflow)
                } else {
                    Ok(Values::I64(trunc_div(a as int, d as int) as i64))
                },
                _ => Err(Trap::TypeMismatch),
            },
            BinOp::DivU => match (l, r) {
                (Values::I32(a), Values::I32(d)) => if d == 0 {
                    Err(Trap::DivisionByZero)
                } else {
                    Ok(Values::I32(((a as u32) / (d as u32)) as i32))
                },
                (Values::I64(a), Values::I64(d)) => if d == 0 {
                    Err(Trap::DivisionByZero)
                } else {
                    Ok(Values::I64(((a as u64) / (d as u64)) as i64))
                },
                _ => Err(Trap::TypeMismatch),
            },
            BinOp::RemS => match (l, r) {
                (Values::I32(a), Values::I32(d)) => if d == 0 {
                    Err(Trap::DivisionByZero)
                } else if a == i32::MIN && d == -1 {
                    Ok(Values::I32(0))
                } else {
                    Ok(Values::I32(trunc_rem(a as int, d as int) as i32))
                },
                (Values::I64(a), Values::I64(d)) => if d == 0 {
                    Err(Trap::DivisionByZero)
                } else if a == i64::MIN && d == -1 {
                    Ok(Values::I64(0))
                } else {
                    Ok(Values::I64(trunc_rem(a as int, d as int) as i64))
                },
                _ => Err(Trap::TypeMismatch),
            },
            BinOp::RemU => match (l, r) {
                (Values::I32(a), Values::I32(d)) => if d == 0 {
                    Err(Trap::DivisionByZero)
                } else {
                    Ok(Values::I32(((a as u32) % (d as u32)) as i32))
                },
                (Values::I64(a), Values::I64(d)) => if d == 0 {
                    Err(Trap::DivisionByZero)
                } else {
                    Ok(Values::I64(((a as u64) % (d as u64)) as i64))
                },
                _ => Err(Trap::TypeMismatch),
            },
            BinOp::And => Ok(match (l, r) {
                (Values::I32(a), Values::I32(b)) => Values::I32(a & b),
                (Values::I64(a), Values::I64(b)) => Values::I64(a & b),
                (Values::F32(a), Values::F32(b)) => Values::F32(a & b),
                (Values::F64(a), Values::F64(b)) => Values::F64(a & b),
                _ => l,
            }),
            BinOp::Or => Ok(match (l, r) {
                (Values::I32(a), Values::I32(b)) => Values::I32(a | b),
                (Values::I64(a), Values::I64(b)) => Values::I64(a | b),
                (Values::F32(a), Values::F32(b)) => Values::F32(a | b),
                (Values::F64(a), Values::F64(b)) => Values::F64(a | b),
                _ => l,
            }),
            BinOp::Xor => Ok(match (l, r) {
                (Values::I32(a), Values::I32(b)) => Values::I32(a ^ b),
                (Values::I64(a), Values::I64(b)) => Values::I64(a ^ b),
                (Values::F32(a), Values::F32(b)) => Values::F32(a ^ b),
                (Values::F64(a), Values::F64(b)) => Values::F64(a ^ b),
                _ => l,
            }),
            BinOp::Shl => Ok(match (l, r) {
                (Values::I32(a), Values::I32(n)) => Values::I32(a.wrapping_shl(n as u32)),
                (Values::I64(a), Values::I64(n)) => Values::I64(a.wrapping_shl(n as u32)),
                _ => l,
            }),
            BinOp::ShrS => Ok(match (l, r) {
                (Values::I32(a), Values::I32(n)) => Values::I32(a.wrapping_shr(n as u32)),
                (Values::I64(a), Values::I64(n)) => Values::I64(a.wrapping_shr(n as u32)),
                _ => l,
            }),
            BinOp::ShrU => Ok(match (l, r) {
                (Values::I32(a), Values::I32(n)) => Values::I32((a as u32).wrapping_shr(n as u32) as i32),
                (Values::I64(a), Values::I64(n)) => Values::I64((a as u64).wrapping_shr(n as u32) as i64),
                _ => l,
            }),
            BinOp::Rotl => Ok(match (l, r) {
                (Values::I32(a), Values::I32(n)) => Values::I32(rotl32(a as u32, n as u32) as i32),
                (Values::I64(a), Values::I64(n)) => Values::I64(rotl64(a as u64, n as u64) as i64),
                _ => l,
            }),
            BinOp::Rotr => Ok(match (l, r) {
                (Values::I32(a), Values::I32(n)) => Values::I32(rotl32(a as u32, (32 - (n as u32) % 32) as u32) as i32),
                (Values::I64(a), Values::I64(n)) => Values::I64(rotl64(a as u64, (64 - (n as u64) % 64) as u64) as i64),
                _ => l,
            }),
            BinOp::Eq => Ok(Values::I32(bool_i32(l == r))),
            BinOp::Ne => Ok(Values::I32(bool_i32(l != r))),
            BinOp::LtS => Ok(compare(l, r, false, false, false)),
            BinOp::LtU => Ok(compare(l, r, false, false, true)),
            BinOp::GtS => Ok(compare(l, r, true, false, false)),
            BinOp::GtU => Ok(compare(l, r, true, false, true)),
            BinOp::LeS => Ok(compare(l, r, false, true, false)),
            BinOp::LeU => Ok(compare(l, r, false, true, true)),
            BinOp::GeS => Ok(compare(l, r, true, true, false)),
            BinOp::GeU => Ok(compare(l, r, true, true, true)),
        }
    }
}

/// What an instruction of one operand gives; an operand of another type is a
/// type mismatch.
pub open spec fn unary_result(op: UnOp, v: Values) -> Result<Values, Trap> {
    match op {
        UnOp::Eqz => if is_int(v) {
            Ok(Values::I32(bool_i32(v == Values::I32(0) || v == Values::I64(0))))
        } else {
            Err(Trap::TypeMismatch)
        },
        UnOp::Clz => match v {
            Values::I32(_) => Ok(Values::I32(leading_zeros(int_bits(v).0, 32) as i32)),
            Values::I64(_) => Ok(Values::I64(leading_zeros(int_bits(v).0, 64) as i64)),
            _ => Err(Trap::TypeMismatch),
        },
        UnOp::Ctz => match v {
            Values::I32(_) => Ok(Values::I32(trailing_zeros(int_bits(v).0, 0, 32) as i32)),
            Values::I64(_) => Ok(Values::I64(trailing_zeros(int_bits(v).0, 0, 64) as i64)),
            _ => Err(Trap::TypeMismatch),
        },
        UnOp::Popcnt => match v {
            Values::I32(_) => Ok(Values::I32(ones(int_bits(v).0, 32) as i32)),
            Values::I64(_) => Ok(Values::I64(ones(int_bits(v).0, 64) as i64)),
            _ => Err(Trap::TypeMismatch),
        },
        UnOp::Wrap => match v {
            Values::I64(n) => Ok(Values::I32(n as i32)),
            _ => Err(Trap::TypeMismatch),
        },
        UnOp::ExtendS => match v {
            Values::I32(n) => Ok(Values::I64(n as i64)),
            _ => Err(Trap::TypeMismatch),
        },
        UnOp::ExtendU => match v {
            Values::I32(n) => Ok(Values::I64((n as u32) as i64)),
            _ => Err(Trap::TypeMismatch),
        },
        UnOp::Reinterpret => Ok(spec_reinterpret(v)),
    }
}

/// `v` with the bits above the low `bits` copied from bit `bits - 1`, when
/// `signed` and that bit is set.
pub open spec fn extend32(v: u32, bits: u32, signed: bool) -> u32 {
    if signed && v & (1u32 << ((bits - 1) as u32)) != 0 {
        v | ((!1u32) << ((bits - 1) as u32))
    } else {
        v
    }
}

/// `v` with the bits above the low `bits` copied from bit `bits - 1`, when
/// `signed` and that bit is set.
pub open spec fn extend64(v: u64, bits: u32, signed: bool) -> u64 {
    if signed && v & (1u64 << ((bits - 1) as u64)) != 0 {
        v | ((!1u64) << ((bits - 1) as u64))
    } else {
        v
    }
}

/// The value a load makes of the number that the bytes it read spell.
pub open spec fn load_value(k: LoadKind, raw: nat) -> Values {
    if k.wide {
        let v = extend64(raw as u64, k.bits, k.signed);
        if k.float { Values::F64(v) } else { Values::I64(v as i64) }
    } else {
        let v = extend32(raw as u32, k.bits, k.signed);
        if k.float { Values::F32(v) } else { Values::I32(v as i32) }
    }
}

/// `block`: pushes a label that continues after the block's `end`.
pub open spec fn spec_block(s: VmState, body: Seq<u8>, pc: nat) -> Result<VmState, Trap> {
    match raw_u32_at(body, pc + 1) {
        None => Err(Trap::UnexpectedEnd),
        Some(size) => if pc + 5 >= body.len() {
            Err(Trap::UnexpectedEnd)
        } else {
            match spec_value_type(body[pc + 5int]) {
                None => Err(Trap::Unknown),
                Some(bt) => if pc + size > u32::MAX {
                    Err(Trap::Unknown)
                } else {
                    match s.stack.push(StackEntry::Label(Label {
                        source_instruction: LabelKind::Block,
                        return_type: bt,
                        continuation: (pc + size) as u32,
                    })) {
                        Err(e) => Err(e),
                        Ok(st) => Ok(s.with_stack(st).at(pc + 6)),
                    }
                },
            }
        },
    }
}

/// `loop`: pushes a label that continues at the loop itself.
pub open spec fn spec_loop(s: VmState, body: Seq<u8>, pc: nat) -> Result<VmState, Trap> {
    if pc + 1 >= body.len() {
        Err(Trap::UnexpectedEnd)
    } else {
        match spec_value_type(body[pc + 1int]) {
            None => Err(Trap::Unknown),
            Some(bt) => match s.stack.push(StackEntry::Label(Label {
                source_instruction: LabelKind::Loop,
                return_type: bt,
                continuation: pc as u32,
            })) {
                Err(e) => Err(e),
                Ok(st) => Ok(s.with_stack(st).at(pc + 2)),
            },
        }
    }
}

/// `if`: pops the condition; when it is not zero, runs the first arm, else
/// the `else` arm, or the `end` when there is none. Either way a label that
/// continues after the whole is pushed.
pub open spec fn spec_if(s: VmState, body: Seq<u8>, pc: nat) -> Result<VmState, Trap> {
    match (raw_u32_at(body, pc + 1), raw_u32_at(body, pc + 5)) {
        (Some(if_size), Some(else_size)) => if pc + 9 >= body.len() {
            Err(Trap::UnexpectedEnd)
        } else {
            match spec_value_type(body[pc + 9int]) {
                None => Err(Trap::Unknown),
                Some(bt) => if pc + if_size + else_size > u32::MAX {
                    Err(Trap::Unknown)
                } else {
                    let continuation = (pc + if_size + else_size) as u32;
                    match s.stack.pop_i32() {
                        Err(e) => Err(e),
                        Ok((c, st)) => if c != 0 {
                            match st.push(StackEntry::Label(Label {
                                source_instruction: LabelKind::If,
                                return_type: bt,
                                continuation,
                            })) {
                                Err(e) => Err(e),
                                Ok(st2) => Ok(s.with_stack(st2).at(pc + 10)),
                            }
                        } else {
                            match st.push(StackEntry::Label(Label {
                                source_instruction: LabelKind::Else,
                                return_type: bt,
                                continuation,
                            })) {
                                Err(e) => Err(e),
                                Ok(st2) => if else_size > 0 {
                                    Ok(s.with_stack(st2).at((pc + if_size) as nat))
                                } else if pc + if_size >= 1 {
                                    Ok(s.with_stack(st2).at((pc + if_size - 1) as nat))
                                } else {
                                    Err(Trap::Unknown)
                                },
                            }
                        },
                    }
                },
            }
        },
        _ => Err(Trap::UnexpectedEnd),
    }
}

/// `else` or `end`: the last byte of a body finishes the call. Elsewhere the
/// innermost label leaves the stack, the values above it staying; the label
/// of a taken first arm continues after the `else` arm.
pub open spec fn spec_end(s: VmState, body: Seq<u8>, pc: nat) -> Result<VmState, Trap> {
    if pc + 1 >= body.len() {
        Ok(s.at(pc + 1))
    } else {
        let sp1 = s.stack.until_label();
        let buf = s.stack.entries.subrange(sp1 as int, s.stack.sp as int).reverse();
        match (StackView { sp: sp1, ..s.stack }).pop() {
            Err(e) => Err(e),
            Ok((StackEntry::Label(l), st)) => match st.push_entries(buf) {
                Err(e) => Err(e),
                Ok(st2) => Ok(s.with_stack(st2).at(
                    if l.source_instruction == LabelKind::If { l.continuation as nat } else { pc + 1 },
                )),
            },
            Ok(_) => Err(Trap::Notfound),
        }
    }
}

/// A branch to the label `depth` levels out.
pub open spec fn spec_br(s: VmState, depth: nat) -> Result<VmState, Trap> {
    match s.stack.jump_to_label(depth) {
        Err(e) => Err(e),
        Ok((c, st)) => Ok(s.with_stack(st).at(c as nat)),
    }
}

/// `br_if`: branches when the popped condition is not zero.
pub open spec fn spec_br_if(s: VmState, body: Seq<u8>, pc: nat) -> Result<VmState, Trap> {
    match raw_u32_at(body, pc + 1) {
        None => Err(Trap::UnexpectedEnd),
        Some(depth) => match s.stack.pop_i32() {
            Err(e) => Err(e),
            Ok((c, st)) => if c != 0 {
                spec_br(s.with_stack(st), depth as nat)
            } else {
                Ok(s.with_stack(st).at(pc + 5))
            },
        },
    }
}

/// `br_table`: branches to the label that the popped index picks from the
/// table, or to the default past its end.
pub open spec fn spec_br_table(s: VmState, body: Seq<u8>, pc: nat) -> Result<VmState, Trap> {
    match raw_u32_at(body, pc + 1) {
        None => Err(Trap::UnexpectedEnd),
        Some(n) => match s.stack.pop_i32() {
            Err(e) => Err(e),
            Ok((i, st)) => {
                let q = if 0 <= i && i < n { pc + 5 + 4 * i } else { pc + 5 + 4 * n };
                match raw_u32_at(body, q as nat) {
                    None => Err(Trap::UnexpectedEnd),
                    Some(depth) => spec_br(s.with_stack(st), depth as nat),
                }
            },
        },
    }
}

/// Enters the function `idx`: its parameters leave the stack and come back,
/// in order, as its first locals from a new frame pointer, followed by its
/// declared locals and the label of its frame.
pub open spec fn spec_enter(p: Program, s: VmState, idx: nat) -> Result<VmState, Trap> {
    let f = p.functions[idx as int];
    match s.stack.pop_n(f.ty.0.len()) {
        Err(e) => Err(e),
        Ok((args, st)) => match zero_entries(f.locals) {
            None => Err(Trap::Unknown),
            Some(zeros) => match (StackView { fp: st.sp, ..st }).push_entries(zeros.reverse() + args) {
                Err(e) => Err(e),
                Ok(st2) => match st2.push(StackEntry::Label(Label {
                    source_instruction: LabelKind::Frame,
                    return_type: first_or_unit(f.ty.1),
                    continuation: f.body.len() as u32,
                })) {
                    Err(e) => Err(e),
                    Ok(st3) => Ok(VmState {
                        stack: st3,
                        frames: s.frames.push(Frame { function: idx as usize, ptr: 0, prev_frame_ptr: s.stack.fp as usize }),
                        ..s
                    }),
                },
            },
        },
    }
}

/// Calls the function `idx`, when there is one; a host function is left to
/// the embedder, with its arguments on the stack.
pub open spec fn spec_invoke(p: Program, s: VmState, idx: nat) -> Result<VmState, Trap> {
    if idx >= p.functions.len() {
        Err(Trap::UnexpectedEnd)
    } else if p.functions[idx as int].host {
        Ok(s)
    } else {
        spec_enter(p, s, idx)
    }
}

/// Hands a call of function `idx` over: a host function to the embedder,
/// another one into a new frame.
pub open spec fn spec_transfer(p: Program, s: VmState, idx: nat) -> Result<(Outcome, VmState), Trap> {
    if p.functions[idx as int].host {
        Ok((Outcome::Host(idx as u32), s))
    } else {
        cont(spec_enter(p, s, idx))
    }
}

/// `call`: the caller continues after the instruction once the callee returns.
pub open spec fn spec_call(p: Program, s: VmState, body: Seq<u8>, pc: nat) -> Result<(Outcome, VmState), Trap> {
    match raw_u32_at(body, pc + 1) {
        None => Err(Trap::UnexpectedEnd),
        Some(idx) => if idx >= p.functions.len() {
            Err(Trap::UnexpectedEnd)
        } else {
            spec_transfer(p, s.at(pc + 5), idx as nat)
        },
    }
}

/// `call_indirect`: calls the function that the popped index picks from the
/// table, which must have the type the instruction names.
pub open spec fn spec_call_indirect(p: Program, s: VmState, body: Seq<u8>, pc: nat) -> Result<(Outcome, VmState), Trap> {
    match raw_u32_at(body, pc + 1) {
        None => Err(Trap::UnexpectedEnd),
        Some(ti) => match p.table {
            None => Err(Trap::UnexpectedEnd),
            Some(tab) => match s.stack.pop_i32() {
                Err(e) => Err(e),
                Ok((i, st)) => if i > (tab.len() as i32) || (i as u32) >= tab.len() {
                    Err(Trap::UndefinedElement)
                } else {
                    match tab[(i as u32) as int] {
                        None => Err(Trap::UninitializedElement),
                        Some(fi) => if fi >= p.functions.len() || ti >= p.types.len() {
                            Err(Trap::UnexpectedEnd)
                        } else if p.functions[fi as int].ty != p.types[ti as int] {
                            Err(Trap::IndirectCallTypeMismatch)
                        } else {
                            spec_transfer(p, s.with_stack(st).at(pc + 5), fi as nat)
                        },
                    }
                },
            },
        },
    }
}

/// `drop`: pops a value.
pub open spec fn spec_drop(s: VmState, pc: nat) -> Result<VmState, Trap> {
    match s.stack.pop_value() {
        Err(e) => Err(e),
        Ok((_, st)) => Ok(s.with_stack(st).at(pc + 1)),
    }
}

/// `select`: pops a condition and two values, and keeps the first of them
/// when the condition is not zero, else the second.
pub open spec fn spec_select(s: VmState, pc: nat) -> Result<VmState, Trap> {
    match s.stack.pop_i32() {
        Err(e) => Err(e),
        Ok((c, st1)) => match st1.pop_value() {
            Err(e) => Err(e),
            Ok((f, st2)) => match st2.pop_value() {
                Err(e) => Err(e),
                Ok((t, st3)) => match st3.push(StackEntry::Value(if c != 0 { t } else { f })) {
                    Err(e) => Err(e),
                    Ok(st4) => Ok(s.with_stack(st4).at(pc + 1)),
                },
            },
        },
    }
}

/// `local.get`: pushes the slot of the local.
pub open spec fn spec_get_local(s: VmState, body: Seq<u8>, pc: nat) -> Result<VmState, Trap> {
    match raw_u32_at(body, pc + 1) {
        None => Err(Trap::UnexpectedEnd),
        Some(idx) => if s.stack.fp + idx >= s.stack.size {
            Err(Trap::UnexpectedEnd)
        } else {
            match s.stack.push(s.stack.entries[s.stack.fp + idx]) {
                Err(e) => Err(e),
                Ok(st) => Ok(s.with_stack(st).at(pc + 5)),
            }
        },
    }
}

/// `local.set` and `local.tee`: pops the top entry and writes it into the slot
/// of the local; the tee pushes it back first.
pub open spec fn spec_set_local(s: VmState, body: Seq<u8>, pc: nat, tee: bool) -> Result<VmState, Trap> {
    match raw_u32_at(body, pc + 1) {
        None => Err(Trap::UnexpectedEnd),
        Some(idx) => match s.stack.pop() {
            Err(e) => Err(e),
            Ok((v, st)) => {
                let st1 = if tee { st.push(v) } else { Ok(st) };
                match st1 {
                    Err(e) => Err(e),
                    Ok(st2) => if st2.fp + idx >= st2.size {
                        Err(Trap::StackOverflow)
                    } else {
                        Ok(s.with_stack(StackView {
                            entries: st2.entries.update(st2.fp + idx, v),
                            ..st2
                        }).at(pc + 5))
                    },
                }
            },
        },
    }
}

/// `global.get`: pushes the value of the global.
pub open spec fn spec_get_global(s: VmState, body: Seq<u8>, pc: nat) -> Result<VmState, Trap> {
    match raw_u32_at(body, pc + 1) {
        None => Err(Trap::UnexpectedEnd),
        Some(idx) => if idx >= s.globals.len() {
            Err(Trap::Notfound)
        } else {
            match s.stack.push(StackEntry::Value(s.globals[idx as int])) {
                Err(e) => Err(e),
                Ok(st) => Ok(s.with_stack(st).at(pc + 5)),
            }
        },
    }
}

/// `global.set`: pops a value into the global, when there is one.
pub open spec fn spec_set_global(s: VmState, body: Seq<u8>, pc: nat) -> Result<VmState, Trap> {
    match raw_u32_at(body, pc + 1) {
        None => Err(Trap::UnexpectedEnd),
        Some(idx) => match s.stack.pop_value() {
            Err(e) => Err(e),
            Ok((v, st)) => Ok(VmState {
                stack: st,
                globals: if idx < s.globals.len() { s.globals.update(idx as int, v) } else { s.globals },
                ..s
            }.at(pc + 5)),
        },
    }
}

/// The address range `[ea, end)` that an access of `bytes` bytes at offset
/// `offset` from the popped index `i` covers, unless it leaves 32 bits or the memory.
pub open spec fn effective_range(i: i32, offset: u32, bytes: nat, size: u32) -> Result<(nat, nat), Trap> {
    let ea = (i as u32) + offset;
    if ea > u32::MAX || ea + bytes > u32::MAX || ea + bytes > size {
        Err(Trap::MemoryAccessOutOfBounds)
    } else {
        Ok((ea as nat, (ea + bytes) as nat))
    }
}

/// A load: pops the index and pushes what the addressed bytes spell.
pub open spec fn spec_load(s: VmState, body: Seq<u8>, pc: nat, k: LoadKind) -> Result<VmState, Trap> {
    match (raw_u32_at(body, pc + 1), raw_u32_at(body, pc + 5)) {
        (Some(_), Some(offset)) => match s.memory {
            None => Err(Trap::Notfound),
            Some(m) => match s.stack.pop_i32() {
                Err(e) => Err(e),
                Ok((i, st)) => match effective_range(i, offset, (k.bits / 8) as nat, m.size) {
                    Err(e) => Err(e),
                    Ok((ea, end)) => match st.push(StackEntry::Value(load_value(k, le_value(mem_range(m.data, ea, end))))) {
                        Err(e) => Err(e),
                        Ok(st2) => Ok(s.with_stack(st2).at(pc + 9)),
                    },
                },
            },
        },
        _ => Err(Trap::UnexpectedEnd),
    }
}

/// A store: pops a value and the index, and writes the low `bits` of the value.
pub open spec fn spec_store(s: VmState, body: Seq<u8>, pc: nat, bits: u32) -> Result<VmState, Trap> {
    match (raw_u32_at(body, pc + 1), raw_u32_at(body, pc + 5)) {
        (Some(_), Some(offset)) => match s.memory {
            None => Err(Trap::Notfound),
            Some(m) => match s.stack.pop_value() {
                Err(e) => Err(e),
                Ok((c, st1)) => match st1.pop_i32() {
                    Err(e) => Err(e),
                    Ok((i, st2)) => match effective_range(i, offset, (bits / 8) as nat, m.size) {
                        Err(e) => Err(e),
                        Ok((ea, end)) => if end - ea > value_bytes(c).len() {
                            Err(Trap::TypeMismatch)
                        } else {
                            Ok(VmState {
                                stack: st2,
                                memory: Some(MemState {
                                    data: spec_allocate(m.data, value_bytes(c).subrange(0, end - ea), ea),
                                    ..m
                                }),
                                ..s
                            }.at(pc + 9))
                        },
                    },
                },
            },
        },
        _ => Err(Trap::UnexpectedEnd),
    }
}

/// `memory.size`: pushes the size in pages.
pub open spec fn spec_memory_size(s: VmState, pc: nat) -> Result<VmState, Trap> {
    match s.memory {
        None => Err(Trap::Notfound),
        Some(m) => match s.stack.push(StackEntry::Value(Values::I32((m.size / PAGE_SIZE) as i32))) {
            Err(e) => Err(e),
            Ok(st) => Ok(s.with_stack(st).at(pc + 1)),
        },
    }
}

/// Whether growing a memory of `size` bytes by `n` pages stays within its
/// maximum and within 32 bits.
pub open spec fn can_grow(size: u32, limit: Limit, n: u32) -> bool {
    let within_max = match limit {
        Limit::HasUpperLimit(_, max) => size / PAGE_SIZE + n <= max,
        Limit::NoUpperLimit(_) => true,
    };
    within_max && size + n * PAGE_SIZE <= u32::MAX
}

/// `memory.grow`: pops a number of pages and grows the memory by it, pushing
/// the old size in pages, or -1 when it cannot grow.
pub open spec fn spec_memory_grow(s: VmState, pc: nat) -> Result<VmState, Trap> {
    match s.memory {
        None => Err(Trap::Notfound),
        Some(m) => match s.stack.pop_i32() {
            Err(e) => Err(e),
            Ok((i, st)) => {
                let n = i as u32;
                let grows = can_grow(m.size, m.limit, n);
                let result = if grows { (m.size / PAGE_SIZE) as i32 } else { -1i32 };
                match st.push(StackEntry::Value(Values::I32(result))) {
                    Err(e) => Err(e),
                    Ok(st2) => Ok(VmState {
                        stack: st2,
                        memory: Some(if grows { MemState { size: (m.size + n * PAGE_SIZE) as u32, ..m } } else { m }),
                        ..s
                    }.at(pc + 1)),
                }
            },
        },
    }
}

/// A constant of 32 bits.
pub open spec fn spec_const32(s: VmState, body: Seq<u8>, pc: nat, float: bool) -> Result<VmState, Trap> {
    match raw_u32_at(body, pc + 1) {
        None => Err(Trap::UnexpectedEnd),
        Some(raw) => match s.stack.push(StackEntry::Value(if float { Values::F32(raw) } else { Values::I32(raw as i32) })) {
            Err(e) => Err(e),
            Ok(st) => Ok(s.with_stack(st).at(pc + 5)),
        },
    }
}

/// A constant of 64 bits.
pub open spec fn spec_const64(s: VmState, body: Seq<u8>, pc: nat, float: bool) -> Result<VmState, Trap> {
    match raw_u64_at(body, pc + 1) {
        None => Err(Trap::UnexpectedEnd),
        Some(raw) => match s.stack.push(StackEntry::Value(if float { Values::F64(raw) } else { Values::I64(raw as i64) })) {
            Err(e) => Err(e),
            Ok(st) => Ok(s.with_stack(st).at(pc + 9)),
        },
    }
}

/// An instruction of one operand.
pub open spec fn spec_unary(s: VmState, pc: nat, op: UnOp) -> Result<VmState, Trap> {
    match s.stack.pop_value() {
        Err(e) => Err(e),
        Ok((v, st)) => match unary_result(op, v) {
            Err(e) => Err(e),
            Ok(r) => match st.push(StackEntry::Value(r)) {
                Err(e) => Err(e),
                Ok(st2) => Ok(s.with_stack(st2).at(pc + 1)),
            },
        },
    }
}

/// An instruction of two operands: the right one is on top.
pub open spec fn spec_binary(s: VmState, pc: nat, op: BinOp) -> Result<VmState, Trap> {
    match s.stack.pop_value() {
        Err(e) => Err(e),
        Ok((r, st1)) => match st1.pop_value() {
            Err(e) => Err(e),
            Ok((l, st2)) => match binary_result(op, l, r) {
                Err(e) => Err(e),
                Ok(v) => match st2.push(StackEntry::Value(v)) {
                    Err(e) => Err(e),
                    Ok(st3) => Ok(s.with_stack(st3).at(pc + 1)),
                },
            },
        },
    }
}

/// Runs the instruction at `pc` of the running function's `body`.
pub open spec fn spec_instruction(p: Program, s: VmState, body: Seq<u8>, pc: nat) -> Result<(Outcome, VmState), Trap> {
    let code = body[pc as int];
    if !is_isa_code(code) {
        Err(Trap::Unknown)
    } else {
        let isa = spec_isa_from(code);
        match isa {
            Isa::Reserved => Err(Trap::Unknown),
            Isa::Unreachable => Err(Trap::Unreachable),
            Isa::Nop => Ok((Outcome::Continue, s.at(pc + 1))),
            Isa::Block => cont(spec_block(s, body, pc)),
            Isa::Loop => cont(spec_loop(s, body, pc)),
            Isa::If => cont(spec_if(s, body, pc)),
            Isa::Else | Isa::End => cont(spec_end(s, body, pc)),
            Isa::Br => match raw_u32_at(body, pc + 1) {
                None => Err(Trap::UnexpectedEnd),
                Some(depth) => cont(spec_br(s, depth as nat)),
            },
            Isa::BrIf => cont(spec_br_if(s, body, pc)),
            Isa::BrTable => cont(spec_br_table(s, body, pc)),
            Isa::Return => Ok((Outcome::Continue, s.at(body.len()))),
            Isa::Call => spec_call(p, s, body, pc),
            Isa::CallIndirect => spec_call_indirect(p, s, body, pc),
            Isa::DropInst => cont(spec_drop(s, pc)),
            Isa::Select => cont(spec_select(s, pc)),
            Isa::GetLocal => cont(spec_get_local(s, body, pc)),
            Isa::SetLocal => cont(spec_set_local(s, body, pc, false)),
            Isa::TeeLocal => cont(spec_set_local(s, body, pc, true)),
            Isa::GetGlobal => cont(spec_get_global(s, body, pc)),
            Isa::SetGlobal => cont(spec_set_global(s, body, pc)),
            Isa::MemorySize => cont(spec_memory_size(s, pc)),
            Isa::MemoryGrow => cont(spec_memory_grow(s, pc)),
            Isa::I32Const => cont(spec_const32(s, body, pc, false)),
            Isa::F32Const => cont(spec_const32(s, body, pc, true)),
            Isa::I64Const => cont(spec_const64(s, body, pc, false)),
            Isa::F64Const => cont(spec_const64(s, body, pc, true)),
            _ => if is_float_op(isa) {
                Ok((Outcome::Float(code), s.at(pc + 1)))
            } else {
                match binary_op(isa) {
                    Some(op) => cont(spec_binary(s, pc, op)),
                    None => match unary_op(isa) {
                        Some(op) => cont(spec_unary(s, pc, op)),
                        None => match load_kind(isa) {
                            Some(k) => cont(spec_load(s, body, pc, k)),
                            None => match store_bits(isa) {
                                Some(bits) => cont(spec_store(s, body, pc, bits)),
                                None => Err(Trap::Unknown),
                            },
                        },
                    },
                }
            },
        }
    }
}

/// Finishes the running call: pops its results, drops its locals and labels
/// by going back to its frame pointer, restores its caller's frame pointer
/// and pushes the results back in order.
pub open spec fn spec_return(p: Program, s: VmState) -> Result<(Outcome, VmState), Trap> {
    let f = s.frames.last();
    let n = p.functions[f.function as int].ty.1.len();
    match s.stack.pop_values(n) {
        Err(e) => Err(e),
        Ok((rets, st)) => if st.fp > st.size {
            Err(Trap::Unknown)
        } else {
            match (StackView { sp: st.fp, fp: f.prev_frame_ptr as nat, ..st }).push_entries(rets) {
                Err(e) => Err(e),
                Ok(st2) => {
                    let frames = s.frames.drop_last();
                    Ok((
                        if frames.len() == 0 { Outcome::Finished } else { Outcome::Continue },
                        VmState { stack: st2, frames, ..s },
                    ))
                },
            }
        },
    }
}

/// One step: with no call in progress there is nothing to do; a call whose
/// position has reached the end of its body returns; else the instruction
/// at the position runs.
pub open spec fn spec_step(p: Program, s: VmState) -> Result<(Outcome, VmState), Trap> {
    if s.frames.len() == 0 {
        Ok((Outcome::Finished, s))
    } else {
        let f = s.frames.last();
        if f.function >= p.functions.len() {
            Err(Trap::Unknown)
        } else {
            let body = p.functions[f.function as int].body;
            if f.ptr >= body.len() {
                spec_return(p, s)
            } else {
                spec_instruction(p, s, body, f.ptr as nat)
            }
        }
    }
}

/// Runs at most `fuel` steps, stopping early when nothing is left to do or a
/// float instruction or a host function waits for the embedder.
pub open spec fn spec_run(p: Program, s: VmState, fuel: nat) -> Result<(Outcome, VmState), Trap>
    decreases fuel,
{
    if fuel == 0 {
        Ok((Outcome::Continue, s))
    } else {
        match spec_step(p, s) {
            Err(e) => Err(e),
            Ok((Outcome::Continue, s2)) => spec_run(p, s2, (fuel - 1) as nat),
            Ok((o, s2)) => Ok((o, s2)),
        }
    }
}

/// The state in which the step that fails begins, when one of at most
/// `fuel` steps fails: the steps before it go on.
pub open spec fn spec_run_failing_state(p: Program, s: VmState, fuel: nat) -> VmState
    decreases fuel,
{
    if fuel == 0 {
        s
    } else {
        match spec_step(p, s) {
            Ok((Outcome::Continue, s2)) => spec_run_failing_state(p, s2, (fuel - 1) as nat),
            _ => s,
        }
    }
}

/// Calls the function `idx` with `args`, the first argument first.
pub open spec fn spec_call_with(p: Program, s: VmState, idx: nat, args: Seq<Values>) -> Result<VmState, Trap> {
    match s.stack.push_entries(args.map_values(|v: Values| StackEntry::Value(v)).reverse()) {
        Err(e) => Err(e),
        Ok(st) => spec_invoke(p, s.with_stack(st), idx),
    }
}

/// The load kind of `i32.load`.
pub open spec fn i32_load() -> LoadKind {
    LoadKind { bits: 32, signed: true, wide: false, float: false }
}

/// The load kind of `i64.load`.
pub open spec fn i64_load() -> LoadKind {
    LoadKind { bits: 64, signed: true, wide: true, float: false }
}

/// What a read gives back of a write: an `i32.store` of `v` at index `i`
/// and offset `offset`, then, with `i` pushed again, an `i32.load` at the
/// same offset pushes `v`.
pub proof fn lemma_store_then_load_i32(
    s: VmState,
    body: Seq<u8>,
    pc: nat,
    body2: Seq<u8>,
    pc2: nat,
    offset: u32,
    i: i32,
    v: i32,
)
    requires
        s.frames.len() > 0,
        s.stack.wf(),
        s.memory is Some,
        raw_u32_at(body, pc + 1) is Some,
        raw_u32_at(body, pc + 5) == Some(offset),
        raw_u32_at(body2, pc2 + 1) is Some,
        raw_u32_at(body2, pc2 + 5) == Some(offset),
        s.stack.pop_value() is Ok,
        s.stack.pop_value()->Ok_0.0 == Values::I32(v),
        s.stack.pop_value()->Ok_0.1.pop_i32() is Ok,
        s.stack.pop_value()->Ok_0.1.pop_i32()->Ok_0.0 == i,
        spec_store(s, body, pc, 32) is Ok,
        spec_store(s, body, pc, 32)->Ok_0.stack.push(StackEntry::Value(Values::I32(i))) is Ok,
    ensures
        ({
            let s1 = spec_store(s, body, pc, 32)->Ok_0;
            let s2 = s1.with_stack(s1.stack.push(StackEntry::Value(Values::I32(i)))->Ok_0);
            let s3 = spec_load(s2, body2, pc2, i32_load());
            &&& s3 is Ok
            &&& s3->Ok_0.stack.pop_value() is Ok
            &&& s3->Ok_0.stack.pop_value()->Ok_0.0 == Values::I32(v)
        }),
{
    let m = s.memory->Some_0;
    let st1 = s.stack.pop_value()->Ok_0.1;
    let st2 = st1.pop_i32()->Ok_0.1;
    assert(effective_range(i, offset, 4, m.size) is Ok);
    let (ea, end) = effective_range(i, offset, 4, m.size)->Ok_0;
    assert(end - ea == 4);
    let data1 = spec_allocate(m.data, value_bytes(Values::I32(v)).subrange(0, 4), ea);
    let s1 = spec_store(s, body, pc, 32);
    assert(s1->Ok_0.memory == Some(MemState { data: data1, ..m }));
    lemma_load_after_store_32(m.data, ea, Values::I32(v));
    assert(le_value(mem_range(data1, ea, end)) == word_32(Values::I32(v)));
    let w = v as u32;
    assert(extend32(w, 32, true) == w) by (bit_vector);
    assert((w as i32) == v) by (bit_vector)
        requires
            w == v as u32,
    ;
    assert(load_value(i32_load(), le_value(mem_range(data1, ea, end))) == Values::I32(v));
    let s1v = s1->Ok_0;
    let s2 = s1v.with_stack(s1v.stack.push(StackEntry::Value(Values::I32(i)))->Ok_0);
    assert(s2.memory == Some(MemState { data: data1, ..m }));
    assert(s2.stack.pop_i32() == Ok::<(i32, StackView), Trap>((i, StackView { sp: s1v.stack.sp, ..s2.stack })));
    assert(effective_range(i, offset, (i32_load().bits / 8) as nat, m.size) == Ok::<(nat, nat), Trap>((ea, end)));
}

/// What a read gives back of a write: an `i64.store` of `v` at index `i`
/// and offset `offset`, then, with `i` pushed again, an `i64.load` at the
/// same offset pushes `v`.
pub proof fn lemma_store_then_load_i64(
    s: VmState,
    body: Seq<u8>,
    pc: nat,
    body2: Seq<u8>,
    pc2: nat,
    offset: u32,
    i: i32,
    v: i64,
)
    requires
        s.frames.len() > 0,
        s.stack.wf(),
        s.memory is Some,
        raw_u32_at(body, pc + 1) is Some,
        raw_u32_at(body, pc + 5) == Some(offset),
        raw_u32_at(body2, pc2 + 1) is Some,
        raw_u32_at(body2, pc2 + 5) == Some(offset),
        s.stack.pop_value() is Ok,
        s.stack.pop_value()->Ok_0.0 == Values::I64(v),
        s.stack.pop_value()->Ok_0.1.pop_i32() is Ok,
        s.stack.pop_value()->Ok_0.1.pop_i32()->Ok_0.0 == i,
        spec_store(s, body, pc, 64) is Ok,
        spec_store(s, body, pc, 64)->Ok_0.stack.push(StackEntry::Value(Values::I32(i))) is Ok,
    ensures
        ({
            let s1 = spec_store(s, body, pc, 64)->Ok_0;
            let s2 = s1.with_stack(s1.stack.push(StackEntry::Value(Values::I32(i)))->Ok_0);
            let s3 = spec_load(s2, body2, pc2, i64_load());
            &&& s3 is Ok
            &&& s3->Ok_0.stack.pop_value() is Ok
            &&& s3->Ok_0.stack.pop_value()->Ok_0.0 == Values::I64(v)
        }),
{
    let m = s.memory->Some_0;
    let st1 = s.stack.pop_value()->Ok_0.1;
    let st2 = st1.pop_i32()->Ok_0.1;
    assert(effective_range(i, offset, 8, m.size) is Ok);
    let (ea, end) = effective_range(i, offset, 8, m.size)->Ok_0;
    assert(end - ea == 8);
    let data1 = spec_allocate(m.data, value_bytes(Values::I64(v)).subrange(0, 8), ea);
    let s1 = spec_store(s, body, pc, 64);
    assert(s1->Ok_0.memory == Some(MemState { data: data1, ..m }));
    lemma_load_after_store_64(m.data, ea, Values::I64(v));
    assert(le_value(mem_range(data1, ea, end)) == word_64(Values::I64(v)));
    let w = v as u64;
    assert(extend64(w, 64, true) == w) by (bit_vector);
    assert((w as i64) == v) by (bit_vector)
        requires
            w == v as u64,
    ;
    assert(load_value(i64_load(), le_value(mem_range(data1, ea, end))) == Values::I64(v));
    let s1v = s1->Ok_0;
    let s2 = s1v.with_stack(s1v.stack.push(StackEntry::Value(Values::I32(i)))->Ok_0);
    assert(s2.memory == Some(MemState { data: data1, ..m }));
    assert(s2.stack.pop_i32() == Ok::<(i32, StackView), Trap>((i, StackView { sp: s1v.stack.sp, ..s2.stack })));
    assert(effective_range(i, offset, (i64_load().bits / 8) as nat, m.size) == Ok::<(nat, nat), Trap>((ea, end)));
}

/// What a call undoes: entering function `idx` from `s` and then, once the
/// callee's results are the top entries of a later state `t` with the same
/// calls in progress and frame pointer, returning from it gives back the
/// caller's calls and frame pointer, and leaves the results, in order, where
/// the arguments began.
pub proof fn lemma_call_then_return(p: Program, s: VmState, idx: nat, t: VmState, results: Seq<Values>)
    requires
        idx < p.functions.len(),
        idx <= usize::MAX,
        s.stack.fp <= usize::MAX,
        s.stack.wf(),
        spec_enter(p, s, idx) is Ok,
        t.frames == spec_enter(p, s, idx)->Ok_0.frames,
        t.stack.fp == spec_enter(p, s, idx)->Ok_0.stack.fp,
        t.stack.size == s.stack.size,
        t.stack.wf(),
        results.len() == p.functions[idx as int].ty.1.len(),
        results.len() <= t.stack.sp,
        forall|k: int| 0 <= k < results.len() ==> #[trigger] t.stack.entries[t.stack.sp - results.len() + k] == StackEntry::Value(results[k]),
        s.stack.sp - p.functions[idx as int].ty.0.len() + results.len() < s.stack.size,
    ensures
        ({
            let base = s.stack.sp - p.functions[idx as int].ty.0.len();
            let r = spec_return(p, t);
            &&& r is Ok
            &&& r->Ok_0.1.frames == s.frames
            &&& r->Ok_0.1.stack.fp == s.stack.fp
            &&& r->Ok_0.1.stack.sp == base + results.len()
            &&& forall|k: int| 0 <= k < results.len() ==> #[trigger] r->Ok_0.1.stack.entries[base + k] == StackEntry::Value(results[k])
        }),
{
    let n = results.len();
    let st = t.stack;
    assert forall|j: int| st.sp - n <= j < st.sp implies #[trigger] st.entries[j] is Value by {
        assert(st.entries[st.sp - n + (j - (st.sp - n))] == StackEntry::Value(results[j - (st.sp - n)]));
    }
    lemma_pop_values(st, n);
    let f = t.frames.last();
    assert(f == Frame { function: idx as usize, ptr: 0, prev_frame_ptr: s.stack.fp as usize });
    let rets = st.entries.subrange(st.sp - n, st.sp as int).reverse();
    let st1 = StackView { sp: (st.sp - n) as nat, ..st };
    let base = s.stack.sp - p.functions[idx as int].ty.0.len();
    assert(st1.fp == base);
    let st2 = StackView { sp: st1.fp, fp: f.prev_frame_ptr as nat, ..st1 };
    let r = st2.push_entries(rets);
    assert(r is Ok);
    assert(t.frames.drop_last() =~= s.frames);
    assert(f.function as int == idx);
    assert(f.prev_frame_ptr as nat == s.stack.fp);
    assert(spec_return(p, t) == Ok::<(Outcome, VmState), Trap>((
        if s.frames.len() == 0 { Outcome::Finished } else { Outcome::Continue },
        VmState { stack: r->Ok_0, frames: s.frames, ..t },
    )));
    assert forall|k: int| 0 <= k < n implies #[trigger] r->Ok_0.entries[base + k] == StackEntry::Value(results[k]) by {
        assert(rets.reverse()[k] == st.entries[st.sp - n + k]);
    }
}

/// A call of a host function hands it to the embedder: the step stops with
/// the function's index, leaves the arguments on the stack and moves the
/// caller past the instruction; once the embedder has put the results on the
/// stack, the caller goes on from there.
pub proof fn lemma_call_host(p: Program, s: VmState, body: Seq<u8>, pc: nat, idx: u32)
    requires
        pc < body.len(),
        body[pc as int] == 0x10u8,
        raw_u32_at(body, pc + 1) == Some(idx),
        idx < p.functions.len(),
        p.functions[idx as int].host,
    ensures
        spec_instruction(p, s, body, pc) == Ok::<(Outcome, VmState), Trap>((Outcome::Host(idx), s.at(pc + 5))),
{
}

/// The bounds of a store, at the machine: a store whose `w` bytes at
/// `i + offset` leave 32 bits or the memory traps as out of bounds (and a
/// step that traps keeps the memory, see `Vm::step`); otherwise exactly those
/// bytes are written, with the low bytes of the value, and the machine moves
/// past the instruction.
pub proof fn lemma_store_bounds(
    p: Program,
    s: VmState,
    body: Seq<u8>,
    pc: nat,
    bits: u32,
    offset: u32,
    c: Values,
    i: i32,
    st2: StackView,
)
    requires
        pc < body.len(),
        is_isa_code(body[pc as int]),
        store_bits(spec_isa_from(body[pc as int])) == Some(bits),
        raw_u32_at(body, pc + 1) is Some,
        raw_u32_at(body, pc + 5) == Some(offset),
        s.memory is Some,
        s.stack.pop_value() matches Ok((v, st1)) && v == c && st1.pop_i32() == Ok::<(i32, StackView), Trap>((i, st2)),
    ensures
        ({
            let m = s.memory->Some_0;
            match effective_range(i, offset, (bits / 8) as nat, m.size) {
                Err(e) => e == Trap::MemoryAccessOutOfBounds && spec_instruction(p, s, body, pc) == Err::<(Outcome, VmState), Trap>(e),
                Ok((ea, end)) => end - ea == bits / 8 && (end - ea <= value_bytes(c).len() ==> spec_instruction(p, s, body, pc) == Ok::<
                    (Outcome, VmState),
                    Trap,
                >(
                    (
                        Outcome::Continue,
                        VmState {
                            stack: st2,
                            memory: Some(MemState { data: spec_allocate(m.data, value_bytes(c).subrange(0, end - ea), ea), ..m }),
                            ..s
                        }.at(pc + 9),
                    ),
                )),
            }
        }),
{
}


/// Whether the instruction at `pc` goes on to the state `t`.
pub open spec fn step_gives(p: Program, s: VmState, body: Seq<u8>, pc: nat, t: VmState) -> bool {
    spec_instruction(p, s, body, pc) == Ok::<(Outcome, VmState), Trap>((Outcome::Continue, t))
}

/// The state after a one-byte instruction that takes the top two operands
/// and leaves `v` in their place.
pub open spec fn replace_two(s: VmState, pc: nat, v: Values) -> VmState {
    s.with_stack(StackView {
        entries: s.stack.entries.update(s.stack.sp - 2, StackEntry::Value(v)),
        sp: (s.stack.sp - 1) as nat,
        ..s.stack
    }).at(pc + 1)
}

/// The state after a one-byte instruction that takes the top operand and
/// leaves `v` in its place.
pub open spec fn replace_top(s: VmState, pc: nat, v: Values) -> VmState {
    s.with_stack(StackView { entries: s.stack.entries.update(s.stack.sp - 1, StackEntry::Value(v)), ..s.stack }).at(pc + 1)
}

/// `local.tee idx` (opcode 0x22) leaves the top entry where it is and writes
/// it into the slot of local `idx` as well: the step succeeds exactly when
/// there is a top entry and the slot lies in the stack, and then only that
/// slot changes, the machine moves past the instruction, and a following
/// `local.get idx` (opcode 0x20) pushes the entry that was teed.
pub proof fn lemma_tee_local(p: Program, s: VmState, body: Seq<u8>, pc: nat, idx: u32, body2: Seq<u8>, pc2: nat)
    requires
        pc < body.len(),
        body[pc as int] == 0x22u8,
        raw_u32_at(body, pc + 1) == Some(idx),
        s.stack.wf(),
        pc2 < body2.len(),
        body2[pc2 as int] == 0x20u8,
        raw_u32_at(body2, pc2 + 1) == Some(idx),
    ensures
        spec_instruction(p, s, body, pc) is Ok <==> (s.stack.sp > 0 && s.stack.fp + idx < s.stack.size),
        s.stack.sp > 0 && s.stack.fp + idx < s.stack.size ==> ({
            let top = s.stack.entries[s.stack.sp - 1];
            let t = s.with_stack(StackView { entries: s.stack.entries.update(s.stack.fp + idx, top), ..s.stack }).at(pc + 5);
            &&& step_gives(p, s, body, pc, t)
            &&& t.stack.entries[t.stack.fp + idx] == top
            &&& t.stack.entries[t.stack.sp - 1] == top
            &&& (t.stack.sp < t.stack.size ==> spec_instruction(p, t, body2, pc2) == Ok::<(Outcome, VmState), Trap>((
                Outcome::Continue,
                t.with_stack(StackView { entries: t.stack.entries.update(t.stack.sp as int, top), sp: t.stack.sp + 1, ..t.stack }).at(pc2 + 5),
            )))
        }),
{
    if s.stack.sp > 0 && s.stack.fp + idx < s.stack.size {
        let top = s.stack.entries[s.stack.sp - 1];
        let st = StackView { sp: (s.stack.sp - 1) as nat, ..s.stack };
        assert(st.push(top) == Ok::<StackView, Trap>(StackView { entries: st.entries.update(st.sp as int, top), sp: s.stack.sp, ..st }));
        assert(st.entries.update(st.sp as int, top) =~= s.stack.entries);
    }
}

/// The integer instructions of two `i32` operands, by opcode: with `a` below
/// `b` on top, each leaves its WebAssembly result in their place (or traps
/// as a division by zero or an overflowing division).
pub proof fn lemma_i32_binary(p: Program, s: VmState, body: Seq<u8>, pc: nat, a: i32, b: i32)
    requires
        pc < body.len(),
        s.stack.wf(),
        s.stack.sp >= 2,
        s.stack.entries[s.stack.sp - 2] == StackEntry::Value(Values::I32(a)),
        s.stack.entries[s.stack.sp - 1] == StackEntry::Value(Values::I32(b)),
    ensures
        ({
            let code = body[pc as int];
            let r = spec_instruction(p, s, body, pc);
            let (ua, ub) = (a as u32, b as u32);
            &&& code == 0x46 ==> step_gives(p, s, body, pc, replace_two(s, pc, Values::I32(bool_i32(a == b))))
            &&& code == 0x47 ==> step_gives(p, s, body, pc, replace_two(s, pc, Values::I32(bool_i32(a != b))))
            &&& code == 0x48 ==> step_gives(p, s, body, pc, replace_two(s, pc, Values::I32(bool_i32(a < b))))
            &&& code == 0x49 ==> step_gives(p, s, body, pc, replace_two(s, pc, Values::I32(bool_i32(ua < ub))))
            &&& code == 0x4a ==> step_gives(p, s, body, pc, replace_two(s, pc, Values::I32(bool_i32(a > b))))
            &&& code == 0x4b ==> step_gives(p, s, body, pc, replace_two(s, pc, Values::I32(bool_i32(ua > ub))))
            &&& code == 0x4c ==> step_gives(p, s, body, pc, replace_two(s, pc, Values::I32(bool_i32(a <= b))))
            &&& code == 0x4d ==> step_gives(p, s, body, pc, replace_two(s, pc, Values::I32(bool_i32(ua <= ub))))
            &&& code == 0x4e ==> step_gives(p, s, body, pc, replace_two(s, pc, Values::I32(bool_i32(a >= b))))
            &&& code == 0x4f ==> step_gives(p, s, body, pc, replace_two(s, pc, Values::I32(bool_i32(ua >= ub))))
            &&& code == 0x6a ==> step_gives(p, s, body, pc, replace_two(s, pc, Values::I32(a.wrapping_add(b))))
            &&& code == 0x6b ==> step_gives(p, s, body, pc, replace_two(s, pc, Values::I32(a.wrapping_sub(b))))
            &&& code == 0x6c ==> step_gives(p, s, body, pc, replace_two(s, pc, Values::I32(a.wrapping_mul(b))))
            &&& code == 0x6d ==> if b == 0 {
                r == Err::<(Outcome, VmState), Trap>(Trap::DivisionByZero)
            } else if a == i32::MIN && b == -1 {
                r == Err::<(Outcome, VmState), Trap>(Trap::DivisionOverflow)
            } else {
                step_gives(p, s, body, pc, replace_two(s, pc, Values::I32(trunc_div(a as int, b as int) as i32)))
            }
            &&& code == 0x6e ==> if b == 0 {
                r == Err::<(Outcome, VmState), Trap>(Trap::DivisionByZero)
            } else {
                step_gives(p, s, body, pc, replace_two(s, pc, Values::I32((ua / ub) as i32)))
            }
            &&& code == 0x6f ==> if b == 0 {
                r == Err::<(Outcome, VmState), Trap>(Trap::DivisionByZero)
            } else {
                step_gives(p, s, body, pc, replace_two(s, pc, Values::I32(trunc_rem(a as int, b as int) as i32)))
            }
            &&& code == 0x70 ==> if b == 0 {
                r == Err::<(Outcome, VmState), Trap>(Trap::DivisionByZero)
            } else {
                step_gives(p, s, body, pc, replace_two(s, pc, Values::I32((ua % ub) as i32)))
            }
            &&& code == 0x71 ==> step_gives(p, s, body, pc, replace_two(s, pc, Values::I32(a & b)))
            &&& code == 0x72 ==> step_gives(p, s, body, pc, replace_two(s, pc, Values::I32(a | b)))
            &&& code == 0x73 ==> step_gives(p, s, body, pc, replace_two(s, pc, Values::I32(a ^ b)))
            &&& code == 0x74 ==> step_gives(p, s, body, pc, replace_two(s, pc, Values::I32(a.wrapping_shl(ub))))
            &&& code == 0x75 ==> step_gives(p, s, body, pc, replace_two(s, pc, Values::I32(a.wrapping_shr(ub))))
            &&& code == 0x76 ==> step_gives(p, s, body, pc, replace_two(s, pc, Values::I32(ua.wrapping_shr(ub) as i32)))
            &&& code == 0x77 ==> step_gives(p, s, body, pc, replace_two(s, pc, Values::I32(rotl32(ua, ub) as i32)))
            &&& code == 0x78 ==> step_gives(p, s, body, pc, replace_two(s, pc, Values::I32(rotl32(ua, (32 - ub % 32) as u32) as i32)))
        }),
{
    let st2 = StackView { sp: (s.stack.sp - 2) as nat, ..s.stack };
    assert(s.stack.pop_value() == Ok::<(Values, StackView), Trap>((Values::I32(b), StackView { sp: (s.stack.sp - 1) as nat, ..s.stack })));
    assert(StackView { sp: (s.stack.sp - 1) as nat, ..s.stack }.pop_value() == Ok::<(Values, StackView), Trap>((Values::I32(a), st2)));
    if a == i32::MIN && b == -1 {
        assert(trunc_rem(a as int, b as int) == 0);
    }
}


/// The integer instructions of two `i64` operands, by opcode: with `a` below
/// `b` on top, each leaves its WebAssembly result in their place (or traps
/// as a division by zero or an overflowing division); the comparisons leave
/// an `i32`.
pub proof fn lemma_i64_binary(p: Program, s: VmState, body: Seq<u8>, pc: nat, a: i64, b: i64)
    requires
        pc < body.len(),
        s.stack.wf(),
        s.stack.sp >= 2,
        s.stack.entries[s.stack.sp - 2] == StackEntry::Value(Values::I64(a)),
        s.stack.entries[s.stack.sp - 1] == StackEntry::Value(Values::I64(b)),
    ensures
        ({
            let code = body[pc as int];
            let r = spec_instruction(p, s, body, pc);
            let (ua, ub) = (a as u64, b as u64);
            &&& code == 0x51 ==> step_gives(p, s, body, pc, replace_two(s, pc, Values::I32(bool_i32(a == b))))
            &&& code == 0x52 ==> step_gives(p, s, body, pc, replace_two(s, pc, Values::I32(bool_i32(a != b))))
            &&& code == 0x53 ==> step_gives(p, s, body, pc, replace_two(s, pc, Values::I32(bool_i32(a < b))))
            &&& code == 0x54 ==> step_gives(p, s, body, pc, replace_two(s, pc, Values::I32(bool_i32(ua < ub))))
            &&& code == 0x55 ==> step_gives(p, s, body, pc, replace_two(s, pc, Values::I32(bool_i32(a > b))))
            &&& code == 0x56 ==> step_gives(p, s, body, pc, replace_two(s, pc, Values::I32(bool_i32(ua > ub))))
            &&& code == 0x57 ==> step_gives(p, s, body, pc, replace_two(s, pc, Values::I32(bool_i32(a <= b))))
            &&& code == 0x58 ==> step_gives(p, s, body, pc, replace_two(s, pc, Values::I32(bool_i32(ua <= ub))))
            &&& code == 0x59 ==> step_gives(p, s, body, pc, replace_two(s, pc, Values::I32(bool_i32(a >= b))))
            &&& code == 0x5a ==> step_gives(p, s, body, pc, replace_two(s, pc, Values::I32(bool_i32(ua >= ub))))
            &&& code == 0x7c ==> step_gives(p, s, body, pc, replace_two(s, pc, Values::I64(a.wrapping_add(b))))
            &&& code == 0x7d ==> step_gives(p, s, body, pc, replace_two(s, pc, Values::I64(a.wrapping_sub(b))))
            &&& code == 0x7e ==> step_gives(p, s, body, pc, replace_two(s, pc, Values::I64(a.wrapping_mul(b))))
            &&& code == 0x7f ==> if b == 0 {
                r == Err::<(Outcome, VmState), Trap>(Trap::DivisionByZero)
            } else if a == i64::MIN && b == -1 {
                r == Err::<(Outcome, VmState), Trap>(Trap::DivisionOverflow)
            } else {
                step_gives(p, s, body, pc, replace_two(s, pc, Values::I64(trunc_div(a as int, b as int) as i64)))
            }
            &&& code == 0x80 ==> if b == 0 {
                r == Err::<(Outcome, VmState), Trap>(Trap::DivisionByZero)
            } else {
                step_gives(p, s, body, pc, replace_two(s, pc, Values::I64((ua / ub) as i64)))
            }
            &&& code == 0x81 ==> if b == 0 {
                r == Err::<(Outcome, VmState), Trap>(Trap::DivisionByZero)
            } else {
                step_gives(p, s, body, pc, replace_two(s, pc, Values::I64(trunc_rem(a as int, b as int) as i64)))
            }
            &&& code == 0x82 ==> if b == 0 {
                r == Err::<(Outcome, VmState), Trap>(Trap::DivisionByZero)
            } else {
                step_gives(p, s, body, pc, replace_two(s, pc, Values::I64((ua % ub) as i64)))
            }
            &&& code == 0x83 ==> step_gives(p, s, body, pc, replace_two(s, pc, Values::I64(a & b)))
            &&& code == 0x84 ==> step_gives(p, s, body, pc, replace_two(s, pc, Values::I64(a | b)))
            &&& code == 0x85 ==> step_gives(p, s, body, pc, replace_two(s, pc, Values::I64(a ^ b)))
            &&& code == 0x86 ==> step_gives(p, s, body, pc, replace_two(s, pc, Values::I64(a.wrapping_shl(b as u32))))
            &&& code == 0x87 ==> step_gives(p, s, body, pc, replace_two(s, pc, Values::I64(a.wrapping_shr(b as u32))))
            &&& code == 0x88 ==> step_gives(p, s, body, pc, replace_two(s, pc, Values::I64(ua.wrapping_shr(b as u32) as i64)))
            &&& code == 0x89 ==> step_gives(p, s, body, pc, replace_two(s, pc, Values::I64(rotl64(ua, ub) as i64)))
            &&& code == 0x8a ==> step_gives(p, s, body, pc, replace_two(s, pc, Values::I64(rotl64(ua, (64 - ub % 64) as u64) as i64)))
        }),
{
    let st2 = StackView { sp: (s.stack.sp - 2) as nat, ..s.stack };
    assert(s.stack.pop_value() == Ok::<(Values, StackView), Trap>((Values::I64(b), StackView { sp: (s.stack.sp - 1) as nat, ..s.stack })));
    assert(StackView { sp: (s.stack.sp - 1) as nat, ..s.stack }.pop_value() == Ok::<(Values, StackView), Trap>((Values::I64(a), st2)));
    if a == i64::MIN && b == -1 {
        assert(trunc_rem(a as int, b as int) == 0);
    }
}

/// The instructions of one `i32` operand, by opcode: with `a` on top, each
/// leaves its WebAssembly result in its place; the extensions widen it to
/// `i64`, with or without its sign.
pub proof fn lemma_i32_unary(p: Program, s: VmState, body: Seq<u8>, pc: nat, a: i32)
    requires
        pc < body.len(),
        s.stack.wf(),
        s.stack.sp >= 1,
        s.stack.entries[s.stack.sp - 1] == StackEntry::Value(Values::I32(a)),
    ensures
        ({
            let code = body[pc as int];
            let x = (a as u32) as u64;
            &&& code == 0x45 ==> step_gives(p, s, body, pc, replace_top(s, pc, Values::I32(bool_i32(a == 0))))
            &&& code == 0x67 ==> step_gives(p, s, body, pc, replace_top(s, pc, Values::I32(leading_zeros(x, 32) as i32)))
            &&& code == 0x68 ==> step_gives(p, s, body, pc, replace_top(s, pc, Values::I32(trailing_zeros(x, 0, 32) as i32)))
            &&& code == 0x69 ==> step_gives(p, s, body, pc, replace_top(s, pc, Values::I32(ones(x, 32) as i32)))
            &&& code == 0xac ==> step_gives(p, s, body, pc, replace_top(s, pc, Values::I64(a as i64)))
            &&& code == 0xad ==> step_gives(p, s, body, pc, replace_top(s, pc, Values::I64((a as u32) as i64)))
            &&& code == 0xbe ==> step_gives(p, s, body, pc, replace_top(s, pc, Values::F32(a as u32)))
        }),
{
    assert(s.stack.pop_value() == Ok::<(Values, StackView), Trap>((Values::I32(a), StackView { sp: (s.stack.sp - 1) as nat, ..s.stack })));
}

/// The instructions of one `i64` operand, by opcode: with `a` on top, each
/// leaves its WebAssembly result in its place; the wrap keeps its low 32 bits.
pub proof fn lemma_i64_unary(p: Program, s: VmState, body: Seq<u8>, pc: nat, a: i64)
    requires
        pc < body.len(),
        s.stack.wf(),
        s.stack.sp >= 1,
        s.stack.entries[s.stack.sp - 1] == StackEntry::Value(Values::I64(a)),
    ensures
        ({
            let code = body[pc as int];
            let x = a as u64;
            &&& code == 0x50 ==> step_gives(p, s, body, pc, replace_top(s, pc, Values::I32(bool_i32(a == 0))))
            &&& code == 0x79 ==> step_gives(p, s, body, pc, replace_top(s, pc, Values::I64(leading_zeros(x, 64) as i64)))
            &&& code == 0x7a ==> step_gives(p, s, body, pc, replace_top(s, pc, Values::I64(trailing_zeros(x, 0, 64) as i64)))
            &&& code == 0x7b ==> step_gives(p, s, body, pc, replace_top(s, pc, Values::I64(ones(x, 64) as i64)))
            &&& code == 0xa7 ==> step_gives(p, s, body, pc, replace_top(s, pc, Values::I32(a as i32)))
            &&& code == 0xbf ==> step_gives(p, s, body, pc, replace_top(s, pc, Values::F64(a as u64)))
        }),
{
    assert(s.stack.pop_value() == Ok::<(Values, StackView), Trap>((Values::I64(a), StackView { sp: (s.stack.sp - 1) as nat, ..s.stack })));
}


/// The validator types each instruction of one operand that the runtime
/// computes on integers or bits as the runtime computes it. A conversion
/// asks for an operand of type `from` and pushes `to`: every operand of type
/// `from` is one the runtime converts, into a value of type `to`, and (but
/// for the reinterpretations, which take any operand) one of another type is
/// a type mismatch. A test asks for `t` and pushes an `i32`, as the runtime
/// gives. The others keep the operand's type, as the runtime does.
pub proof fn lemma_unary_types_agree(code: u8, v: Values)
    requires
        is_isa_code(code),
        unary_op(spec_isa_from(code)) is Some,
    ensures
        ({
            let op = unary_op(spec_isa_from(code))->Some_0;
            match spec_check(code) {
                Check::Convert(from, to) => {
                    &&& v.value_type_spec() == from ==> (unary_result(op, v) matches Ok(w) && w.value_type_spec() == to)
                    &&& op != UnOp::Reinterpret && v.value_type_spec() != from ==> unary_result(op, v) == Err::<Values, Trap>(Trap::TypeMismatch)
                },
                Check::Test(t) => v.value_type_spec() == t ==> (unary_result(op, v) matches Ok(w) && w.value_type_spec() == ValueTypes::I32),
                Check::Unary => unary_result(op, v) matches Ok(w) ==> w.value_type_spec() == v.value_type_spec(),
                _ => false,
            }
        }),
{
}

/// The validator types each instruction of two operands that the runtime
/// computes on integers as the runtime computes it: operands the runtime
/// computes on have one type, and the result has that type, or is an `i32`
/// for a comparison.
pub proof fn lemma_binary_types_agree(code: u8, l: Values, r: Values)
    requires
        is_isa_code(code),
        binary_op(spec_isa_from(code)) is Some,
    ensures
        spec_check(code) == Check::Binary || spec_check(code) == Check::Compare,
        binary_result(binary_op(spec_isa_from(code))->Some_0, l, r) matches Ok(w) ==> {
            &&& l.value_type_spec() == r.value_type_spec()
            &&& w.value_type_spec() == if spec_check(code) == Check::Binary { l.value_type_spec() } else { ValueTypes::I32 }
        },
{
}

/// The extensions of an `i32` to an `i64` (opcodes 0xac and 0xad), in the
/// validator and at run time: the validator asks for an `i32` and pushes an
/// `i64`, and the runtime widens any `i32`, with or without its sign.
pub proof fn lemma_extend_types(n: i32)
    ensures
        spec_check(0xacu8) == Check::Convert(ValueTypes::I32, ValueTypes::I64),
        spec_check(0xadu8) == Check::Convert(ValueTypes::I32, ValueTypes::I64),
        unary_result(unary_op(spec_isa_from(0xacu8))->Some_0, Values::I32(n)) == Ok::<Values, Trap>(Values::I64(n as i64)),
        unary_result(unary_op(spec_isa_from(0xadu8))->Some_0, Values::I32(n)) == Ok::<Values, Trap>(Values::I64((n as u32) as i64)),
{
}


/// `local.set idx` (opcode 0x21) pops the top entry into the slot of local
/// `idx`: the step succeeds exactly when there is a top entry and the slot
/// lies in the stack, and then only that slot changes.
pub proof fn lemma_set_local(p: Program, s: VmState, body: Seq<u8>, pc: nat, idx: u32)
    requires
        pc < body.len(),
        body[pc as int] == 0x21u8,
        raw_u32_at(body, pc + 1) == Some(idx),
        s.stack.wf(),
    ensures
        spec_instruction(p, s, body, pc) is Ok <==> (s.stack.sp > 0 && s.stack.fp + idx < s.stack.size),
        s.stack.sp > 0 && s.stack.fp + idx < s.stack.size ==> step_gives(
            p,
            s,
            body,
            pc,
            s.with_stack(StackView {
                entries: s.stack.entries.update(s.stack.fp + idx, s.stack.entries[s.stack.sp - 1]),
                sp: (s.stack.sp - 1) as nat,
                ..s.stack
            }).at(pc + 5),
        ),
{
}

/// `local.get idx` (opcode 0x20) pushes the slot of local `idx`: the step
/// succeeds exactly when the slot lies in the stack and the stack has room.
pub proof fn lemma_get_local(p: Program, s: VmState, body: Seq<u8>, pc: nat, idx: u32)
    requires
        pc < body.len(),
        body[pc as int] == 0x20u8,
        raw_u32_at(body, pc + 1) == Some(idx),
        s.stack.wf(),
    ensures
        spec_instruction(p, s, body, pc) is Ok <==> (s.stack.fp + idx < s.stack.size && s.stack.sp < s.stack.size),
        s.stack.fp + idx < s.stack.size && s.stack.sp < s.stack.size ==> step_gives(
            p,
            s,
            body,
            pc,
            s.with_stack(StackView {
                entries: s.stack.entries.update(s.stack.sp as int, s.stack.entries[s.stack.fp + idx]),
                sp: s.stack.sp + 1,
                ..s.stack
            }).at(pc + 5),
        ),
{
}

/// What a read of a global gives back of a write: `global.set idx` (opcode
/// 0x24) of a value `v` on top, then `global.get idx` (opcode 0x23), pushes
/// `v` again; the other globals keep their values.
pub proof fn lemma_set_then_get_global(p: Program, s: VmState, body: Seq<u8>, pc: nat, body2: Seq<u8>, pc2: nat, idx: u32, v: Values)
    requires
        pc < body.len(),
        body[pc as int] == 0x24u8,
        raw_u32_at(body, pc + 1) == Some(idx),
        pc2 < body2.len(),
        body2[pc2 as int] == 0x23u8,
        raw_u32_at(body2, pc2 + 1) == Some(idx),
        s.stack.wf(),
        s.stack.sp > 0,
        s.stack.entries[s.stack.sp - 1] == StackEntry::Value(v),
        idx < s.globals.len(),
    ensures
        ({
            let r = spec_instruction(p, s, body, pc);
            let t = r->Ok_0.1;
            &&& r is Ok
            &&& t.globals == s.globals.update(idx as int, v)
            &&& t.stack.sp == s.stack.sp - 1
            &&& step_gives(
                p,
                t,
                body2,
                pc2,
                t.with_stack(StackView { entries: t.stack.entries.update(t.stack.sp as int, StackEntry::Value(v)), sp: s.stack.sp, ..t.stack }).at(pc2 + 5),
            )
        }),
{
}

/// The integer constants in byte form: `i32.const` (opcode 0x41) followed by
/// the four bytes of the word `c` pushes `c` as an `i32`, and `i64.const`
/// (opcode 0x42) followed by the eight bytes of `d` pushes `d` as an `i64`,
/// when the stack has room.
pub proof fn lemma_int_consts(p: Program, s: VmState, pre: Seq<u8>, c: u32, d: u64, rest: Seq<u8>)
    requires
        s.stack.wf(),
        s.stack.sp < s.stack.size,
    ensures
        ({
            let body = pre + seq![0x41u8] + le_bytes_u32(c) + rest;
            step_gives(p, s, body, pre.len(), s.with_stack(StackView {
                entries: s.stack.entries.update(s.stack.sp as int, StackEntry::Value(Values::I32(c as i32))),
                sp: s.stack.sp + 1,
                ..s.stack
            }).at(pre.len() + 5))
        }),
        ({
            let body = pre + seq![0x42u8] + le_bytes_u64(d) + rest;
            step_gives(p, s, body, pre.len(), s.with_stack(StackView {
                entries: s.stack.entries.update(s.stack.sp as int, StackEntry::Value(Values::I64(d as i64))),
                sp: s.stack.sp + 1,
                ..s.stack
            }).at(pre.len() + 9))
        }),
{
    let n = pre.len();
    let b1 = pre + seq![0x41u8] + le_bytes_u32(c) + rest;
    assert(b1[n as int] == 0x41u8);
    assert(b1.subrange(n + 1int, n + 5int) =~= le_bytes_u32(c));
    lemma_from_le_bytes_u32(c);
    let b2 = pre + seq![0x42u8] + le_bytes_u64(d) + rest;
    assert(b2[n as int] == 0x42u8);
    assert(b2.subrange(n + 1int, n + 9int) =~= le_bytes_u64(d));
    lemma_from_le_bytes_u64(d);
}


/// The validator types the loads and stores as the runtime runs them: a load
/// (opcodes 0x28 to 0x35) reads as many bits as the validator's width, and
/// whatever it reads makes a value of the type the validator pushes; a store
/// (opcodes 0x36 to 0x3e) writes as many bits as the validator's width.
pub proof fn lemma_memory_access_types_agree(code: u8, raw: nat)
    requires
        0x28 <= code <= 0x3e,
    ensures
        code <= 0x35 ==> (spec_check(code) matches Check::Load(bits, t) && load_kind(spec_isa_from(code)) matches Some(k) && k.bits
            == bits && load_value(k, raw).value_type_spec() == t),
        code >= 0x36 ==> (spec_check(code) matches Check::Store(bits, _) && store_bits(spec_isa_from(code)) == Some(bits)),
{
}


/// `select` (opcode 0x1b): with `t`, then `f`, then an `i32` condition `c`
/// on top, leaves `t` in their place when `c` is not zero, else `f`.
pub proof fn lemma_select(p: Program, s: VmState, body: Seq<u8>, pc: nat, t: Values, f: Values, c: i32)
    requires
        pc < body.len(),
        body[pc as int] == 0x1bu8,
        s.stack.wf(),
        s.stack.sp >= 3,
        s.stack.entries[s.stack.sp - 3] == StackEntry::Value(t),
        s.stack.entries[s.stack.sp - 2] == StackEntry::Value(f),
        s.stack.entries[s.stack.sp - 1] == StackEntry::Value(Values::I32(c)),
    ensures
        step_gives(p, s, body, pc, s.with_stack(StackView {
            entries: s.stack.entries.update(s.stack.sp - 3, StackEntry::Value(if c != 0 { t } else { f })),
            sp: (s.stack.sp - 2) as nat,
            ..s.stack
        }).at(pc + 1)),
{
}

/// `memory.size` (opcode 0x3f) pushes the size of the memory in pages, and
/// `memory.grow` (opcode 0x40) of `n` pages on top either grows the memory by
/// `n` pages, when that stays within its maximum and within 32 bits, and
/// leaves the old size in pages, or keeps the memory and leaves -1.
pub proof fn lemma_memory_size_grow(p: Program, s: VmState, body: Seq<u8>, pc: nat, n: i32)
    requires
        pc < body.len(),
        body[pc as int] == 0x3fu8 || body[pc as int] == 0x40u8,
        s.stack.wf(),
        s.memory is Some,
        body[pc as int] == 0x3fu8 ==> s.stack.sp < s.stack.size,
        body[pc as int] == 0x40u8 ==> s.stack.sp >= 1 && s.stack.entries[s.stack.sp - 1] == StackEntry::Value(Values::I32(n)),
    ensures
        ({
            let m = s.memory->Some_0;
            let pages = m.size / PAGE_SIZE;
            let k = n as u32;
            let fits = m.size + k * PAGE_SIZE <= u32::MAX && match m.limit {
                Limit::HasUpperLimit(_, max) => pages + k <= max,
                Limit::NoUpperLimit(_) => true,
            };
            &&& body[pc as int] == 0x3fu8 ==> step_gives(p, s, body, pc, s.with_stack(StackView {
                entries: s.stack.entries.update(s.stack.sp as int, StackEntry::Value(Values::I32(pages as i32))),
                sp: s.stack.sp + 1,
                ..s.stack
            }).at(pc + 1))
            &&& body[pc as int] == 0x40u8 ==> step_gives(p, s, body, pc, VmState {
                stack: StackView {
                    entries: s.stack.entries.update(s.stack.sp - 1, StackEntry::Value(Values::I32(if fits { pages as i32 } else { -1i32 }))),
                    ..s.stack
                },
                memory: Some(if fits { MemState { size: (m.size + k * PAGE_SIZE) as u32, ..m } } else { m }),
                ..s
            }.at(pc + 1))
        }),
{
    if body[pc as int] == 0x40u8 {
        let st = StackView { sp: (s.stack.sp - 1) as nat, ..s.stack };
        assert(s.stack.pop_i32() == Ok::<(i32, StackView), Trap>((n, st)));
    }
}


/// The conditional branches, against `br depth` (opcode 0x0c) run with the
/// operand taken off: `br_if depth` (opcode 0x0d) with an `i32` condition
/// `c` on top branches as `br depth` does when `c` is not zero, and else only
/// drops `c` and goes on; `br_table` (opcode 0x0e) with an `i32` index `i`
/// on top branches as `br` to the `i`-th label of its table, or to the
/// default label when `i` is negative or past the table.
pub proof fn lemma_conditional_branches(p: Program, s: VmState, body: Seq<u8>, pc: nat, c: i32, depth: u32, body2: Seq<u8>, pc2: nat)
    requires
        pc < body.len(),
        body[pc as int] == 0x0du8 || body[pc as int] == 0x0eu8,
        s.stack.wf(),
        s.stack.sp >= 1,
        s.stack.entries[s.stack.sp - 1] == StackEntry::Value(Values::I32(c)),
        pc2 < body2.len(),
        body2[pc2 as int] == 0x0cu8,
        raw_u32_at(body2, pc2 + 1) == Some(depth),
    ensures
        ({
            let below = s.with_stack(StackView { sp: (s.stack.sp - 1) as nat, ..s.stack });
            &&& body[pc as int] == 0x0du8 && raw_u32_at(body, pc + 1) == Some(depth) ==> if c != 0 {
                spec_instruction(p, s, body, pc) == spec_instruction(p, below, body2, pc2)
            } else {
                step_gives(p, s, body, pc, below.at(pc + 5))
            }
            &&& body[pc as int] == 0x0eu8 ==> (raw_u32_at(body, pc + 1) matches Some(n) && raw_u32_at(
                body,
                (if 0 <= c && c < n { pc + 5 + 4 * c } else { pc + 5 + 4 * n }) as nat,
            ) == Some(depth) ==> spec_instruction(p, s, body, pc) == spec_instruction(p, below, body2, pc2))
        }),
{
    let st = StackView { sp: (s.stack.sp - 1) as nat, ..s.stack };
    assert(s.stack.pop_i32() == Ok::<(i32, StackView), Trap>((c, st)));
}


/// A declared local starts as the zero of its type: each entry that the
/// declared locals start with is a value of the local's type, and zero.
pub proof fn lemma_zero_locals(types: Seq<ValueTypes>)
    requires
        forall|i: int| 0 <= i < types.len() ==> types[i] != ValueTypes::Unit,
    ensures
        zero_entries(types) matches Some(es) && es.len() == types.len() && forall|i: int| 0 <= i < types.len() ==> (
        #[trigger] es[i] matches StackEntry::Value(v) && v.value_type_spec() == types[i] && (v == Values::I32(0) || v
            == Values::I64(0) || v == Values::F32(0) || v == Values::F64(0))),
{
}

} // verus!
