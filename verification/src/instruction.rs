//! Decoding of instruction sequences into the byte form that the runtime reads.
//!
//! The byte form keeps each opcode and writes each immediate as little-endian
//! bytes of fixed width: indices, alignments and offsets in 4 bytes, constants
//! in 4 or 8 bytes. A block carries its size in 4 bytes; an `if` the sizes of
//! its two arms.
use vstd::prelude::*;
use vstd::arithmetic::div_mod::*;
use crate::decodable::{
    byte_at, cursor_ok, spec_leb128_signed, spec_u32, AbstractDecodable, Peekable,
    SignedIntegerDecodable, U32Decodable, U8Iterator, Leb128Decodable, lemma_spec_u32_ok,
    lemma_leb128_unsigned_ok, lemma_leb128_scan_done_bound, spec_leb128_unsigned, leb128_encode, lemma_u32_roundtrip,
};
use crate::error::{Trap, WasmError, WasmResult, trap_result};
use crate::isa::{Isa, is_isa_code, spec_isa_from};
use crate::context::raw_u32_at;
use crate::memory::{lemma_le_value_u32, lemma_le_value_u64};

verus! {

/// The four bytes of `v`, least significant first.
pub open spec fn le_bytes_u32(v: u32) -> Seq<u8> {
    seq![v as u8, (v >> 8) as u8, (v >> 16) as u8, (v >> 24) as u8]
}

/// The eight bytes of `v`, least significant first.
pub open spec fn le_bytes_u64(v: u64) -> Seq<u8> {
    seq![
        v as u8,
        (v >> 8) as u8,
        (v >> 16) as u8,
        (v >> 24) as u8,
        (v >> 32) as u8,
        (v >> 40) as u8,
        (v >> 48) as u8,
        (v >> 56) as u8,
    ]
}

/// `n` reduced to 32 bits.
pub open spec fn wrap_u32(n: nat) -> u32 {
    (n % 0x1_0000_0000) as u32
}

/// Adding to a count reduced to 32 bits, with wrapping, reduces the sum.
pub proof fn lemma_wrap_u32_add(n: nat, k: u32)
    ensures
        ((n % 0x1_0000_0000) as u32).wrapping_add(k) == wrap_u32((k + n) as nat),
{
    let x = (n % 0x1_0000_0000) as u32;
    lemma_add_mod_noop(n as int, k as int, 0x1_0000_0000);
    lemma_mod_bound(n as int, 0x1_0000_0000);
    if x + k > u32::MAX {
        lemma_mod_self_0(0x1_0000_0000);
        lemma_mod_adds((x + k - 0x1_0000_0000) as int, 0x1_0000_0000, 0x1_0000_0000);
        lemma_small_mod((x + k - 0x1_0000_0000) as nat, 0x1_0000_0000);
    } else {
        lemma_small_mod((x + k) as nat, 0x1_0000_0000);
    }
}

/// Whether a byte ends an instruction sequence (`else` or `end`).
pub open spec fn is_block_end(b: Option<u8>) -> bool {
    b == Some(0x05u8) || b == Some(0x0bu8)
}

/// Instructions that carry one index immediate.
pub open spec fn has_index_immediate(isa: Isa) -> bool {
    isa == Isa::GetLocal || isa == Isa::SetLocal || isa == Isa::TeeLocal || isa == Isa::GetGlobal
        || isa == Isa::SetGlobal || isa == Isa::Br || isa == Isa::BrIf || isa == Isa::Call
}

/// Instructions that access memory and carry an alignment and an offset.
pub open spec fn is_memory_access(isa: Isa) -> bool {
    match isa {
        Isa::I32Load | Isa::I64Load | Isa::F32Load | Isa::F64Load | Isa::I32Load8Sign
        | Isa::I32Load8Unsign | Isa::I32Load16Sign | Isa::I32Load16Unsign | Isa::I64Load8Sign
        | Isa::I64Load8Unsign | Isa::I64Load16Sign | Isa::I64Load16Unsign | Isa::I64Load32Sign
        | Isa::I64Load32Unsign | Isa::I32Store | Isa::I64Store | Isa::F32Store | Isa::F64Store
        | Isa::I32Store8 | Isa::I32Store16 | Isa::I64Store8 | Isa::I64Store16 | Isa::I64Store32 => true,
        _ => false,
    }
}

/// Instructions without immediates.
pub open spec fn is_plain(isa: Isa) -> bool {
    !(isa == Isa::Reserved || isa == Isa::End || isa == Isa::Else || isa == Isa::Block || isa
        == Isa::Loop || isa == Isa::If || has_index_immediate(isa) || isa == Isa::BrTable || isa
        == Isa::CallIndirect || isa == Isa::I32Const || isa == Isa::I64Const || isa
        == Isa::F32Const || isa == Isa::F64Const || is_memory_access(isa) || isa
        == Isa::MemorySize || isa == Isa::MemoryGrow)
}

/// `n` raw bytes at `ptr`, each of which must be there.
pub open spec fn spec_raw_bytes(bytes: Seq<u8>, ptr: nat, n: nat) -> (Result<Seq<u8>, Trap>, nat) {
    if ptr + n <= bytes.len() {
        (Ok(bytes.subrange(ptr as int, (ptr + n) as int)), ptr + n)
    } else {
        (Err(Trap::UnexpectedEnd), if ptr <= bytes.len() { bytes.len() + 1 } else { ptr + 1 })
    }
}

/// The alignment and the offset of a memory access. Both are read even when
/// the first fails; a failure of either is reported as `Unknown`.
pub open spec fn spec_memory_parameter(bytes: Seq<u8>, ptr: nat) -> (Result<(u32, u32), Trap>, nat) {
    let (align, p) = spec_u32(bytes, ptr);
    let (offset, p2) = spec_u32(bytes, p);
    match (align, offset) {
        (Ok(a), Ok(o)) => (Ok((a, o)), p2),
        _ => (Err(Trap::Unknown), p2),
    }
}

/// The `n` label indices of a branch table after the count, and the position after them.
pub open spec fn spec_br_table_indices(bytes: Seq<u8>, ptr: nat, n: nat) -> (Result<Seq<u8>, Trap>, nat)
    decreases n,
{
    if n == 0 {
        (Ok(seq![]), ptr)
    } else {
        let (r, p) = spec_br_table_indices(bytes, ptr, (n - 1) as nat);
        match r {
            Err(e) => (Err(e), p),
            Ok(out) => {
                let (idx, p2) = spec_u32(bytes, p);
                match idx {
                    Ok(idx) => (Ok(out + le_bytes_u32(idx)), p2),
                    Err(e) => (Err(e), p2),
                }
            },
        }
    }
}

/// Decodes one sequence of instructions up to and including its `else` or `end`,
/// appending the byte form to `acc`.
pub open spec fn spec_decode_seq(bytes: Seq<u8>, ptr: nat, acc: Seq<u8>) -> (Result<Seq<u8>, Trap>, nat)
    decreases bytes.len() - ptr, 1nat,
{
    if ptr >= bytes.len() {
        (Err(Trap::UnexpectedEnd), ptr + 1)
    } else if is_block_end(Some(bytes[ptr as int])) {
        (Ok(acc.push(bytes[ptr as int])), ptr + 1)
    } else {
        let code = bytes[ptr as int];
        if !is_isa_code(code) || spec_isa_from(code) == Isa::Reserved {
            (Err(Trap::Unknown), ptr + 1)
        } else {
            let isa = spec_isa_from(code);
            let (one, p) = spec_decode_one(bytes, ptr, code, isa);
            match one {
                Err(e) => (Err(e), p),
                Ok(out) => if p > bytes.len() {
                    (Err(Trap::UnexpectedEnd), p + 1)
                } else if ptr < p {
                    spec_decode_seq(bytes, p, acc + out)
                } else {
                    (Err(Trap::Unknown), p)
                },
            }
        }
    }
}

/// Instructions that open a block: `block`, `loop` and `if`.
pub open spec fn is_block_isa(isa: Isa) -> bool {
    isa == Isa::Block || isa == Isa::Loop || isa == Isa::If
}

/// Decodes the instruction at `ptr`, whose opcode byte is `code`, into its byte form.
pub open spec fn spec_decode_one(bytes: Seq<u8>, ptr: nat, code: u8, isa: Isa) -> (Result<Seq<u8>, Trap>, nat)
    decreases bytes.len() - ptr, 0nat,
{
    let p = ptr + 1;
    if is_block_isa(isa) {
        if p >= bytes.len() {
            (Err(Trap::UnexpectedEnd), p + 1)
        } else {
            let block_type = bytes[p as int];
            let (inner, p2) = spec_decode_instructions(bytes, p + 1);
            match inner {
                Err(e) => (Err(e), p2),
                Ok(ins) => if isa == Isa::Block {
                    (Ok(seq![code] + le_bytes_u32(wrap_u32(6 + ins.len())) + seq![block_type] + ins), p2)
                } else if isa == Isa::Loop {
                    (Ok(seq![code, block_type] + ins), p2)
                } else if ins.len() > 0 && ins.last() == 0x05u8 && ptr < p2 <= bytes.len() {
                    let (els, p3) = spec_decode_instructions(bytes, p2);
                    match els {
                        Err(e) => (Err(e), p3),
                        Ok(els) => (Ok(seq![code] + le_bytes_u32(wrap_u32(10 + ins.len()))
                            + le_bytes_u32(wrap_u32(els.len())) + seq![block_type] + ins + els), p3),
                    }
                } else {
                    (Ok(seq![code] + le_bytes_u32(wrap_u32(10 + ins.len())) + le_bytes_u32(0)
                        + seq![block_type] + ins), p2)
                },
            }
        }
    } else {
        spec_immediates(bytes, p, code, isa)
    }
}

/// The byte form of an instruction that opens no block, whose immediates start at `p`.
pub open spec fn spec_immediates(bytes: Seq<u8>, p: nat, code: u8, isa: Isa) -> (Result<Seq<u8>, Trap>, nat) {
    if has_index_immediate(isa) {
        spec_index_immediate(bytes, p, code)
    } else if isa == Isa::BrTable {
        spec_br_table(bytes, p, code)
    } else if isa == Isa::CallIndirect {
        spec_call_indirect(bytes, p, code)
    } else if isa == Isa::I32Const {
        spec_i32_const(bytes, p, code)
    } else if isa == Isa::I64Const {
        spec_i64_const(bytes, p, code)
    } else if isa == Isa::F32Const {
        spec_float_const(bytes, p, code, 4)
    } else if isa == Isa::F64Const {
        spec_float_const(bytes, p, code, 8)
    } else if is_memory_access(isa) {
        spec_memory_immediates(bytes, p, code)
    } else if isa == Isa::MemorySize || isa == Isa::MemoryGrow {
        spec_reserved_byte(bytes, p, code)
    } else {
        (Ok(seq![code]), p)
    }
}

/// An instruction with one index immediate.
#[verifier::opaque]
pub open spec fn spec_index_immediate(bytes: Seq<u8>, p: nat, code: u8) -> (Result<Seq<u8>, Trap>, nat) {
    let (idx, p2) = spec_u32(bytes, p);
    match idx {
        Ok(idx) => (Ok(seq![code] + le_bytes_u32(idx)), p2),
        Err(e) => (Err(e), p2),
    }
}

/// A branch table: the count, the label indices and the default label.
#[verifier::opaque]
pub open spec fn spec_br_table(bytes: Seq<u8>, p: nat, code: u8) -> (Result<Seq<u8>, Trap>, nat) {
    let (len, p2) = spec_u32(bytes, p);
    match len {
        Err(e) => (Err(e), p2),
        Ok(len) => {
            let (idxs, p3) = spec_br_table_indices(bytes, p2, len as nat);
            match idxs {
                Err(e) => (Err(e), p3),
                Ok(idxs) => {
                    let (default, p4) = spec_u32(bytes, p3);
                    match default {
                        Ok(d) => (Ok(seq![code] + le_bytes_u32(len) + idxs + le_bytes_u32(d)), p4),
                        Err(e) => (Err(e), p4),
                    }
                },
            }
        },
    }
}

/// An indirect call: the type index, then a reserved byte that is skipped unread.
#[verifier::opaque]
pub open spec fn spec_call_indirect(bytes: Seq<u8>, p: nat, code: u8) -> (Result<Seq<u8>, Trap>, nat) {
    let (idx, p2) = spec_u32(bytes, p);
    match idx {
        Ok(idx) => (Ok(seq![code] + le_bytes_u32(idx)), p2 + 1),
        Err(e) => (Err(e), p2),
    }
}

/// A 32-bit integer constant, written as its four bytes.
#[verifier::opaque]
pub open spec fn spec_i32_const(bytes: Seq<u8>, p: nat, code: u8) -> (Result<Seq<u8>, Trap>, nat) {
    let (v, p2) = spec_leb128_signed(bytes, p, 32);
    match v {
        Ok(v) => (Ok(seq![code] + le_bytes_u32((v as i32) as u32)), p2),
        Err(e) => (Err(e), p2),
    }
}

/// A 64-bit integer constant, written as its eight bytes.
#[verifier::opaque]
pub open spec fn spec_i64_const(bytes: Seq<u8>, p: nat, code: u8) -> (Result<Seq<u8>, Trap>, nat) {
    let (v, p2) = spec_leb128_signed(bytes, p, 64);
    match v {
        Ok(v) => (Ok(seq![code] + le_bytes_u64((v as i64) as u64)), p2),
        Err(e) => (Err(e), p2),
    }
}

/// A float constant: its `n` raw bytes, copied as they are.
#[verifier::opaque]
pub open spec fn spec_float_const(bytes: Seq<u8>, p: nat, code: u8, n: nat) -> (Result<Seq<u8>, Trap>, nat) {
    let (raw, p2) = spec_raw_bytes(bytes, p, n);
    match raw {
        Ok(raw) => (Ok(seq![code] + raw), p2),
        Err(e) => (Err(e), p2),
    }
}

/// A memory access: its alignment and offset.
#[verifier::opaque]
pub open spec fn spec_memory_immediates(bytes: Seq<u8>, p: nat, code: u8) -> (Result<Seq<u8>, Trap>, nat) {
    let (m, p2) = spec_memory_parameter(bytes, p);
    match m {
        Ok((a, o)) => (Ok(seq![code] + le_bytes_u32(a) + le_bytes_u32(o)), p2),
        Err(e) => (Err(e), p2),
    }
}

/// `memory.size` and `memory.grow`: a reserved byte that must be there.
#[verifier::opaque]
pub open spec fn spec_reserved_byte(bytes: Seq<u8>, p: nat, code: u8) -> (Result<Seq<u8>, Trap>, nat) {
    if p < bytes.len() {
        (Ok(seq![code]), p + 1)
    } else {
        (Err(Trap::UnexpectedEnd), p + 1)
    }
}

/// Decodes an instruction sequence at `ptr` up to and including its `else` or `end`.
pub open spec fn spec_decode_instructions(bytes: Seq<u8>, ptr: nat) -> (Result<Seq<u8>, Trap>, nat)
    decreases bytes.len() - ptr, 2nat,
{
    spec_decode_seq(bytes, ptr, seq![])
}

/// The 32-bit word whose bytes, least significant first, are `raw`.
pub open spec fn from_le_bytes_u32(raw: Seq<u8>) -> u32 {
    (raw[0] as u32) | ((raw[1] as u32) << 8) | ((raw[2] as u32) << 16) | ((raw[3] as u32) << 24)
}

/// The 64-bit word whose bytes, least significant first, are `raw`.
pub open spec fn from_le_bytes_u64(raw: Seq<u8>) -> u64 {
    (raw[0] as u64) | ((raw[1] as u64) << 8) | ((raw[2] as u64) << 16) | ((raw[3] as u64) << 24)
        | ((raw[4] as u64) << 32) | ((raw[5] as u64) << 40) | ((raw[6] as u64) << 48) | ((
    raw[7] as u64) << 56)
}

/// Writing a word made of four bytes gives the bytes back.
pub proof fn lemma_le_bytes_u32(b0: u8, b1: u8, b2: u8, b3: u8)
    ensures
        le_bytes_u32(from_le_bytes_u32(seq![b0, b1, b2, b3])) == seq![b0, b1, b2, b3],
{
    let v = from_le_bytes_u32(seq![b0, b1, b2, b3]);
    assert(v == (b0 as u32) | ((b1 as u32) << 8) | ((b2 as u32) << 16) | ((b3 as u32) << 24));
    assert(v as u8 == b0 && (v >> 8) as u8 == b1 && (v >> 16) as u8 == b2 && (v >> 24) as u8 == b3)
        by (bit_vector)
        requires
            v == (b0 as u32) | ((b1 as u32) << 8) | ((b2 as u32) << 16) | ((b3 as u32) << 24),
    ;
    assert(le_bytes_u32(v) =~= seq![b0, b1, b2, b3]);
}

/// Writing a word made of eight bytes gives the bytes back.
pub proof fn lemma_le_bytes_u64(raw: Seq<u8>)
    requires
        raw.len() == 8,
    ensures
        le_bytes_u64(from_le_bytes_u64(raw)) == raw,
{
    let v = from_le_bytes_u64(raw);
    let (b0, b1, b2, b3, b4, b5, b6, b7) = (raw[0], raw[1], raw[2], raw[3], raw[4], raw[5], raw[6], raw[7]);
    assert(v == (b0 as u64) | ((b1 as u64) << 8) | ((b2 as u64) << 16) | ((b3 as u64) << 24) | ((
    b4 as u64) << 32) | ((b5 as u64) << 40) | ((b6 as u64) << 48) | ((b7 as u64) << 56));
    assert(v as u8 == b0 && (v >> 8) as u8 == b1 && (v >> 16) as u8 == b2 && (v >> 24) as u8 == b3
        && (v >> 32) as u8 == b4 && (v >> 40) as u8 == b5 && (v >> 48) as u8 == b6 && (v >> 56) as u8
        == b7) by (bit_vector)
        requires
            v == (b0 as u64) | ((b1 as u64) << 8) | ((b2 as u64) << 16) | ((b3 as u64) << 24) | ((
            b4 as u64) << 32) | ((b5 as u64) << 40) | ((b6 as u64) << 48) | ((b7 as u64) << 56),
    ;
    assert(le_bytes_u64(v) =~= raw);
}

/// Decoding of instruction sequences.
pub trait InstructionDecodable: U32Decodable + Peekable + SignedIntegerDecodable {
    /// Reads the four raw bytes of a 32-bit float constant as a word.
    fn decode_f32(&mut self) -> (r: WasmResult<u32>)
        requires
            cursor_ok(old(self).spec_bytes(), old(self).spec_ptr()),
        ensures
            final(self).spec_bytes() == old(self).spec_bytes(),
            final(self).spec_ptr() == spec_raw_bytes(old(self).spec_bytes(), old(self).spec_ptr(), 4).1,
            match spec_raw_bytes(old(self).spec_bytes(), old(self).spec_ptr(), 4).0 {
                Ok(raw) => r == Ok::<u32, WasmError>(from_le_bytes_u32(raw)),
                Err(e) => r == Err::<u32, WasmError>(WasmError::Trap(e)),
            },
    {
        let ghost bytes = self.spec_bytes();
        let ghost ptr = self.spec_ptr();
        let b0 = match self.next() { Some(b) => b, None => return Err(WasmError::Trap(Trap::UnexpectedEnd)) };
        let b1 = match self.next() { Some(b) => b, None => return Err(WasmError::Trap(Trap::UnexpectedEnd)) };
        let b2 = match self.next() { Some(b) => b, None => return Err(WasmError::Trap(Trap::UnexpectedEnd)) };
        let b3 = match self.next() { Some(b) => b, None => return Err(WasmError::Trap(Trap::UnexpectedEnd)) };
        proof {
            assert(bytes.subrange(ptr as int, (ptr + 4) as int) =~= seq![b0, b1, b2, b3]);
        }
        Ok((b0 as u32) | ((b1 as u32) << 8) | ((b2 as u32) << 16) | ((b3 as u32) << 24))
    }

    /// Reads the eight raw bytes of a 64-bit float constant as a word.
    fn decode_f64(&mut self) -> (r: WasmResult<u64>)
        requires
            cursor_ok(old(self).spec_bytes(), old(self).spec_ptr()),
        ensures
            final(self).spec_bytes() == old(self).spec_bytes(),
            final(self).spec_ptr() == spec_raw_bytes(old(self).spec_bytes(), old(self).spec_ptr(), 8).1,
            match spec_raw_bytes(old(self).spec_bytes(), old(self).spec_ptr(), 8).0 {
                Ok(raw) => r == Ok::<u64, WasmError>(from_le_bytes_u64(raw)),
                Err(e) => r == Err::<u64, WasmError>(WasmError::Trap(e)),
            },
    {
        let ghost bytes = self.spec_bytes();
        let ghost ptr = self.spec_ptr();
        let b0 = match self.next() { Some(b) => b, None => return Err(WasmError::Trap(Trap::UnexpectedEnd)) };
        let b1 = match self.next() { Some(b) => b, None => return Err(WasmError::Trap(Trap::UnexpectedEnd)) };
        let b2 = match self.next() { Some(b) => b, None => return Err(WasmError::Trap(Trap::UnexpectedEnd)) };
        let b3 = match self.next() { Some(b) => b, None => return Err(WasmError::Trap(Trap::UnexpectedEnd)) };
        let b4 = match self.next() { Some(b) => b, None => return Err(WasmError::Trap(Trap::UnexpectedEnd)) };
        let b5 = match self.next() { Some(b) => b, None => return Err(WasmError::Trap(Trap::UnexpectedEnd)) };
        let b6 = match self.next() { Some(b) => b, None => return Err(WasmError::Trap(Trap::UnexpectedEnd)) };
        let b7 = match self.next() { Some(b) => b, None => return Err(WasmError::Trap(Trap::UnexpectedEnd)) };
        proof {
            assert(bytes.subrange(ptr as int, (ptr + 8) as int) =~= seq![b0, b1, b2, b3, b4, b5, b6, b7]);
        }
        let buf = (b0 as u64) | ((b1 as u64) << 8) | ((b2 as u64) << 16) | ((b3 as u64) << 24)
            | ((b4 as u64) << 32) | ((b5 as u64) << 40) | ((b6 as u64) << 48) | ((b7 as u64) << 56);
        Ok(buf)
    }

    /// Appends the four bytes of `raw`, least significant first.
    fn push_u32_as_bytes(&self, raw: u32, expressions: &mut Vec<u8>)
        ensures
            final(expressions)@ == old(expressions)@ + le_bytes_u32(raw),
    {
        expressions.push(raw as u8);
        expressions.push((raw >> 8) as u8);
        expressions.push((raw >> 16) as u8);
        expressions.push((raw >> 24) as u8);
        proof {
            assert(expressions@ =~= old(expressions)@ + le_bytes_u32(raw));
        }
    }

    /// Appends the eight bytes of `raw`, least significant first.
    fn push_u64_as_bytes(&self, raw: u64, expressions: &mut Vec<u8>)
        ensures
            final(expressions)@ == old(expressions)@ + le_bytes_u64(raw),
    {
        expressions.push(raw as u8);
        expressions.push((raw >> 8) as u8);
        expressions.push((raw >> 16) as u8);
        expressions.push((raw >> 24) as u8);
        expressions.push((raw >> 32) as u8);
        expressions.push((raw >> 40) as u8);
        expressions.push((raw >> 48) as u8);
        expressions.push((raw >> 56) as u8);
        proof {
            assert(expressions@ =~= old(expressions)@ + le_bytes_u64(raw));
        }
    }

    /// Reads the alignment and the offset of a memory access.
    fn decode_memory_parameter(&mut self) -> (r: WasmResult<(u32, u32)>)
        requires
            cursor_ok(old(self).spec_bytes(), old(self).spec_ptr()),
        ensures
            final(self).spec_bytes() == old(self).spec_bytes(),
            final(self).spec_ptr() == spec_memory_parameter(old(self).spec_bytes(), old(self).spec_ptr()).1,
            r == trap_result(spec_memory_parameter(old(self).spec_bytes(), old(self).spec_ptr()).0),
    {
        proof {
            lemma_spec_u32_ok(old(self).spec_bytes(), old(self).spec_ptr());
        }
        let align = self.decode_leb128_u32();
        let offset = self.decode_leb128_u32();
        match (align, offset) {
            (Ok(align), Ok(offset)) => Ok((align, offset)),
            _ => Err(WasmError::Trap(Trap::Unknown)),
        }
    }

    /// Reads the immediates of a memory access and appends its byte form.
    fn decode_memory(&mut self, inst: u8, expressions: &mut Vec<u8>) -> (r: WasmResult<()>)
        requires
            cursor_ok(old(self).spec_bytes(), old(self).spec_ptr()),
        ensures
            final(self).spec_bytes() == old(self).spec_bytes(),
            final(self).spec_ptr() == spec_memory_parameter(old(self).spec_bytes(), old(self).spec_ptr()).1,
            match spec_memory_parameter(old(self).spec_bytes(), old(self).spec_ptr()).0 {
                Ok((a, o)) => r is Ok && final(expressions)@ == old(expressions)@ + seq![inst]
                    + le_bytes_u32(a) + le_bytes_u32(o),
                Err(e) => r == Err::<(), WasmError>(WasmError::Trap(e)) && final(expressions)@ == old(expressions)@,
            },
    {
        let (align, offset) = match self.decode_memory_parameter() {
            Ok(x) => x,
            Err(e) => return Err(e),
        };
        expressions.push(inst);
        self.push_u32_as_bytes(align, expressions);
        self.push_u32_as_bytes(offset, expressions);
        proof {
            assert(expressions@ =~= old(expressions)@ + seq![inst] + le_bytes_u32(align) + le_bytes_u32(offset));
        }
        Ok(())
    }

    /// Decodes an instruction sequence up to and including its `else` or `end`
    /// into the byte form. A byte that names no instruction, and a reserved
    /// opcode, is `Unknown`.
    fn decode_instructions(&mut self) -> (r: WasmResult<Vec<u8>>)
        requires
            cursor_ok(old(self).spec_bytes(), old(self).spec_ptr()),
        ensures
            final(self).spec_bytes() == old(self).spec_bytes(),
            final(self).spec_ptr() == spec_decode_instructions(old(self).spec_bytes(), old(self).spec_ptr()).1,
            match spec_decode_instructions(old(self).spec_bytes(), old(self).spec_ptr()).0 {
                Ok(out) => r matches Ok(v) && v@ == out,
                Err(e) => r == Err::<Vec<u8>, WasmError>(WasmError::Trap(e)),
            },
    ;
}

/// Reading a 32-bit unsigned LEB128 integer that succeeds ends within the bytes.
proof fn lemma_signed_ok(bytes: Seq<u8>, ptr: nat, width: nat)
    requires
        width == 32 || width == 64,
    ensures
        spec_leb128_signed(bytes, ptr, width).0 is Ok ==> ptr < spec_leb128_signed(bytes, ptr, width).1
            <= bytes.len(),
{
    lemma_leb128_unsigned_ok(bytes, ptr, width);
    lemma_leb128_scan_done_bound(bytes, ptr, 0, if width == 32 { 5 } else { 10 });
}

/// Reading branch-table indices that succeeds ends within the bytes.
proof fn lemma_br_table_progress(bytes: Seq<u8>, ptr: nat, n: nat)
    requires
        ptr <= bytes.len(),
    ensures
        spec_br_table_indices(bytes, ptr, n).0 is Ok ==> ptr <= spec_br_table_indices(bytes, ptr, n).1
            <= bytes.len(),
    decreases n,
{
    if n > 0 {
        lemma_br_table_progress(bytes, ptr, (n - 1) as nat);
        let (_, p) = spec_br_table_indices(bytes, ptr, (n - 1) as nat);
        lemma_spec_u32_ok(bytes, p);
    }
}

/// Decoding a sequence that succeeds moves forward and ends within the bytes.
pub proof fn lemma_seq_progress(bytes: Seq<u8>, ptr: nat, acc: Seq<u8>)
    ensures
        spec_decode_seq(bytes, ptr, acc).0 is Ok ==> ptr < spec_decode_seq(bytes, ptr, acc).1
            <= bytes.len(),
    decreases bytes.len() - ptr, 1nat,
{
    if ptr < bytes.len() && !is_block_end(Some(bytes[ptr as int])) {
        let code = bytes[ptr as int];
        if is_isa_code(code) && spec_isa_from(code) != Isa::Reserved {
            let isa = spec_isa_from(code);
            lemma_one_progress(bytes, ptr, code, isa);
            let (one, p) = spec_decode_one(bytes, ptr, code, isa);
            if let Ok(out) = one {
                if p <= bytes.len() && ptr < p {
                    lemma_seq_progress(bytes, p, acc + out);
                }
            }
        }
    }
}

/// Decoding one instruction that succeeds moves forward, at most one byte past the end.
pub proof fn lemma_one_progress(bytes: Seq<u8>, ptr: nat, code: u8, isa: Isa)
    requires
        ptr < bytes.len(),
    ensures
        spec_decode_one(bytes, ptr, code, isa).0 is Ok ==> ptr < spec_decode_one(
            bytes,
            ptr,
            code,
            isa,
        ).1 <= bytes.len() + 1,
        spec_decode_one(bytes, ptr, code, isa).0 is Ok && isa != Isa::CallIndirect
            ==> spec_decode_one(bytes, ptr, code, isa).1 <= bytes.len(),
    decreases bytes.len() - ptr, 0nat,
{
    let p = ptr + 1;
    if is_block_isa(isa) {
        if p < bytes.len() {
            lemma_instructions_progress(bytes, p + 1);
            let (inner, p2) = spec_decode_instructions(bytes, p + 1);
            if let Ok(ins) = inner {
                if isa == Isa::If && ins.len() > 0 && ins.last() == 0x05u8 && ptr < p2 <= bytes.len() {
                    lemma_instructions_progress(bytes, p2);
                }
            }
        }
    } else {
        lemma_immediates_progress(bytes, p, code, isa);
    }
}

/// Reading the immediates of an instruction that succeeds ends within the bytes,
/// but for an indirect call, which may end one byte past them.
pub proof fn lemma_immediates_progress(bytes: Seq<u8>, p: nat, code: u8, isa: Isa)
    requires
        p <= bytes.len(),
    ensures
        spec_immediates(bytes, p, code, isa).0 is Ok ==> p <= spec_immediates(bytes, p, code, isa).1
            <= bytes.len() + 1,
        spec_immediates(bytes, p, code, isa).0 is Ok && isa != Isa::CallIndirect
            ==> spec_immediates(bytes, p, code, isa).1 <= bytes.len(),
{
    reveal(spec_index_immediate);
    reveal(spec_br_table);
    reveal(spec_call_indirect);
    reveal(spec_i32_const);
    reveal(spec_i64_const);
    reveal(spec_float_const);
    reveal(spec_memory_immediates);
    reveal(spec_reserved_byte);
    if has_index_immediate(isa) || isa == Isa::CallIndirect {
        lemma_spec_u32_ok(bytes, p);
    } else if isa == Isa::BrTable {
        lemma_spec_u32_ok(bytes, p);
        let (len, p2) = spec_u32(bytes, p);
        if let Ok(len) = len {
            lemma_br_table_progress(bytes, p2, len as nat);
            let (_, p3) = spec_br_table_indices(bytes, p2, len as nat);
            lemma_spec_u32_ok(bytes, p3);
        }
    } else if isa == Isa::I32Const {
        lemma_signed_ok(bytes, p, 32);
    } else if isa == Isa::I64Const {
        lemma_signed_ok(bytes, p, 64);
    } else if is_memory_access(isa) {
        lemma_spec_u32_ok(bytes, p);
        let (_, p2) = spec_u32(bytes, p);
        lemma_spec_u32_ok(bytes, p2);
    }
}

/// A decoded sequence ends with the `else` or `end` byte that closed it.
pub proof fn lemma_seq_ends_with_terminator(bytes: Seq<u8>, ptr: nat, acc: Seq<u8>)
    ensures
        spec_decode_seq(bytes, ptr, acc).0 is Ok ==> {
            let out = spec_decode_seq(bytes, ptr, acc).0->Ok_0;
            &&& out.len() > 0
            &&& out.last() == 0x05u8 || out.last() == 0x0bu8
            &&& 0 < spec_decode_seq(bytes, ptr, acc).1
            &&& out.last() == bytes[spec_decode_seq(bytes, ptr, acc).1 - 1]
        },
    decreases bytes.len() - ptr,
{
    if ptr < bytes.len() && !is_block_end(Some(bytes[ptr as int])) {
        let code = bytes[ptr as int];
        if is_isa_code(code) && spec_isa_from(code) != Isa::Reserved {
            let isa = spec_isa_from(code);
            let (one, p) = spec_decode_one(bytes, ptr, code, isa);
            if let Ok(out) = one {
                if p <= bytes.len() && ptr < p {
                    lemma_seq_ends_with_terminator(bytes, p, acc + out);
                }
            }
        }
    }
}

/// Decoding an instruction sequence that succeeds moves forward and ends within the bytes.
pub proof fn lemma_instructions_progress(bytes: Seq<u8>, ptr: nat)
    ensures
        spec_decode_instructions(bytes, ptr).0 is Ok ==> ptr < spec_decode_instructions(bytes, ptr).1
            <= bytes.len(),
    decreases bytes.len() - ptr, 2nat,
{
    lemma_seq_progress(bytes, ptr, seq![]);
}


/// A 32-bit word written as its four bytes, least significant first, reads
/// back as the word.
pub proof fn lemma_from_le_bytes_u32(v: u32)
    ensures
        from_le_bytes_u32(le_bytes_u32(v)) == v,
{
    let bs = le_bytes_u32(v);
    let w = from_le_bytes_u32(bs);
    lemma_le_bytes_u32(bs[0], bs[1], bs[2], bs[3]);
    assert(seq![bs[0], bs[1], bs[2], bs[3]] =~= bs);
    lemma_le_value_u32(w);
    lemma_le_value_u32(v);
}

/// A 64-bit word written as its eight bytes, least significant first, reads
/// back as the word.
pub proof fn lemma_from_le_bytes_u64(v: u64)
    ensures
        from_le_bytes_u64(le_bytes_u64(v)) == v,
{
    let w = from_le_bytes_u64(le_bytes_u64(v));
    lemma_le_bytes_u64(le_bytes_u64(v));
    lemma_le_value_u64(w);
    lemma_le_value_u64(v);
}

/// Decoding keeps the alignment and the offset of a memory access: a load or
/// store (opcodes 0x28 to 0x3e) whose alignment `a` and offset `o` follow it
/// in LEB128 decodes, past both, to its opcode followed by `a` and `o` as
/// four-byte words, so that the word at position 1 of the byte form is `a`
/// and the word at position 5 is `o`.
pub proof fn lemma_memarg_roundtrip(pre: Seq<u8>, code: u8, a: u32, o: u32, rest: Seq<u8>)
    requires
        0x28 <= code <= 0x3e,
    ensures
        ({
            let ea = leb128_encode(a as nat);
            let eo = leb128_encode(o as nat);
            let bytes = pre + seq![code] + ea + eo + rest;
            let (r, q) = spec_decode_one(bytes, pre.len(), code, spec_isa_from(code));
            &&& r == Ok::<Seq<u8>, Trap>(seq![code] + le_bytes_u32(a) + le_bytes_u32(o))
            &&& q == pre.len() + 1 + ea.len() + eo.len()
            &&& raw_u32_at(r->Ok_0, 1) == Some(a)
            &&& raw_u32_at(r->Ok_0, 5) == Some(o)
        }),
{
    let ea = leb128_encode(a as nat);
    let eo = leb128_encode(o as nat);
    let bytes = pre + seq![code] + ea + eo + rest;
    let p = pre.len() + 1;
    assert(bytes.subrange(p as int, (p + ea.len()) as int) =~= ea);
    lemma_u32_roundtrip(bytes, p, a);
    assert(bytes.subrange((p + ea.len()) as int, (p + ea.len() + eo.len()) as int) =~= eo);
    lemma_u32_roundtrip(bytes, p + ea.len(), o);
    reveal(spec_memory_immediates);
    let out = seq![code] + le_bytes_u32(a) + le_bytes_u32(o);
    assert(out.subrange(1, 5) =~= le_bytes_u32(a));
    assert(out.subrange(5, 9) =~= le_bytes_u32(o));
    lemma_from_le_bytes_u32(a);
    lemma_from_le_bytes_u32(o);
}


/// Decoding keeps an index immediate: `br`, `br_if`, `call`, and the
/// accesses of locals and globals, whose index `i` follows the opcode in
/// LEB128, decode, past it, to the opcode followed by `i` as a four-byte word.
pub proof fn lemma_index_roundtrip(pre: Seq<u8>, code: u8, i: u32, rest: Seq<u8>)
    requires
        code == 0x0c || code == 0x0d || code == 0x10 || (0x20 <= code <= 0x24),
    ensures
        ({
            let ei = leb128_encode(i as nat);
            let bytes = pre + seq![code] + ei + rest;
            let (r, q) = spec_decode_one(bytes, pre.len(), code, spec_isa_from(code));
            &&& r == Ok::<Seq<u8>, Trap>(seq![code] + le_bytes_u32(i))
            &&& q == pre.len() + 1 + ei.len()
            &&& raw_u32_at(r->Ok_0, 1) == Some(i)
        }),
{
    let ei = leb128_encode(i as nat);
    let bytes = pre + seq![code] + ei + rest;
    let p = pre.len() + 1;
    assert(bytes.subrange(p as int, (p + ei.len()) as int) =~= ei);
    lemma_u32_roundtrip(bytes, p, i);
    reveal(spec_index_immediate);
    let out = seq![code] + le_bytes_u32(i);
    assert(out.subrange(1, 5) =~= le_bytes_u32(i));
    lemma_from_le_bytes_u32(i);
}

} // verus!
