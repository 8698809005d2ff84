//! The byte cursor that decodes modules.
use vstd::prelude::*;
use crate::decodable::{
    byte_at, cursor_ok, spec_u32, AbstractDecodable, Peekable, SignedIntegerDecodable,
    U32Decodable, U8Iterator, Leb128Decodable, LimitDecodable, NameDecodable, lemma_spec_u32_ok,
};
use crate::error::{Trap, WasmError, WasmResult};
use crate::instruction::{
    InstructionDecodable, spec_decode_instructions, spec_decode_seq, spec_decode_one,
    spec_br_table_indices, spec_immediates, spec_index_immediate, spec_br_table,
    spec_call_indirect, spec_i32_const, spec_i64_const, spec_float_const, spec_memory_immediates,
    spec_reserved_byte, le_bytes_u32, le_bytes_u64, lemma_one_progress,
    lemma_instructions_progress, lemma_seq_ends_with_terminator, lemma_wrap_u32_add,
    lemma_le_bytes_u32, lemma_le_bytes_u64,
};
use crate::isa::{Isa, is_isa_code, spec_isa_from};

verus! {

/// A cursor over the bytes of a module or of one of its sections.
pub struct Byte {
    bytes: Vec<u8>,
    byte_ptr: usize,
}

impl AbstractDecodable for Byte {
    closed spec fn spec_bytes(&self) -> Seq<u8> {
        self.bytes@
    }

    closed spec fn spec_ptr(&self) -> nat {
        self.byte_ptr as nat
    }

    fn bytes(&self) -> (r: &Vec<u8>) {
        &self.bytes
    }

    fn byte_ptr(&self) -> (r: usize) {
        self.byte_ptr
    }

    fn increment_ptr(&mut self) {
        self.byte_ptr = self.byte_ptr + 1;
    }
}

impl U8Iterator for Byte {}

impl Peekable for Byte {}

impl Leb128Decodable for Byte {}

impl U32Decodable for Byte {}

impl SignedIntegerDecodable for Byte {}

impl LimitDecodable for Byte {}

impl NameDecodable for Byte {}

/// The four bytes that open a binary module: `\0asm`.
pub open spec fn magic_words() -> Seq<u8> {
    seq![0u8, 97u8, 115u8, 109u8]
}

/// The four bytes of the version of the binary format that is read: 1.
pub open spec fn wasm_version() -> Seq<u8> {
    seq![1u8, 0u8, 0u8, 0u8]
}

/// The bytes of a module after its header, or why the header is refused: fewer
/// than four bytes, or fewer than eight after the magic words, end unexpectedly;
/// a first byte `(` is the text format; other first words lack the magic
/// words; another version is unsupported.
pub open spec fn spec_header(bytes: Seq<u8>) -> Result<Seq<u8>, Trap> {
    if bytes.len() < 4 {
        Err(Trap::UnexpectedEnd)
    } else if bytes[0] == 40u8 {
        Err(Trap::UnsupportedTextform)
    } else if bytes.subrange(0, 4) != magic_words() {
        Err(Trap::MagicHeaderNotDetected)
    } else if bytes.len() < 8 {
        Err(Trap::UnexpectedEnd)
    } else if bytes.subrange(4, 8) != wasm_version() {
        Err(Trap::UnsupportedTextform)
    } else {
        Ok(bytes.subrange(8, bytes.len() as int))
    }
}

impl Byte {
    /// Checks the header of a binary module and makes a cursor over what follows it.
    pub fn new_with_drop(bytes: &[u8]) -> (r: Result<Byte, Trap>)
        ensures
            match spec_header(bytes@) {
                Ok(rest) => r matches Ok(b) && b.spec_bytes() == rest && b.spec_ptr() == 0,
                Err(e) => r == Err::<Byte, Trap>(e),
            },
    {
        if 4 > bytes.len() {
            return Err(Trap::UnexpectedEnd);
        }
        if bytes[0] == 40 {
            return Err(Trap::UnsupportedTextform);
        }
        if !(bytes[0] == 0 && bytes[1] == 97 && bytes[2] == 115 && bytes[3] == 109) {
            proof {
                assert(bytes@.subrange(0, 4) != magic_words()) by {
                    if bytes@.subrange(0, 4) == magic_words() {
                        assert(bytes@.subrange(0, 4)[0] == bytes@[0]);
                        assert(bytes@.subrange(0, 4)[1] == bytes@[1]);
                        assert(bytes@.subrange(0, 4)[2] == bytes@[2]);
                        assert(bytes@.subrange(0, 4)[3] == bytes@[3]);
                    }
                }
            }
            return Err(Trap::MagicHeaderNotDetected);
        }
        proof {
            assert(bytes@.subrange(0, 4) =~= magic_words());
        }
        if 8 > bytes.len() {
            return Err(Trap::UnexpectedEnd);
        }
        if !(bytes[4] == 1 && bytes[5] == 0 && bytes[6] == 0 && bytes[7] == 0) {
            proof {
                assert(bytes@.subrange(4, 8) != wasm_version()) by {
                    if bytes@.subrange(4, 8) == wasm_version() {
                        assert(bytes@.subrange(4, 8)[0] == bytes@[4]);
                        assert(bytes@.subrange(4, 8)[1] == bytes@[5]);
                        assert(bytes@.subrange(4, 8)[2] == bytes@[6]);
                        assert(bytes@.subrange(4, 8)[3] == bytes@[7]);
                    }
                }
            }
            return Err(Trap::UnsupportedTextform);
        }
        proof {
            assert(bytes@.subrange(4, 8) =~= wasm_version());
        }
        let mut rest: Vec<u8> = Vec::new();
        let mut i: usize = 8;
        while i < bytes.len()
            invariant
                8 <= i <= bytes@.len(),
                rest@ == bytes@.subrange(8, i as int),
            decreases bytes@.len() - i,
        {
            rest.push(bytes[i]);
            proof {
                assert(bytes@.subrange(8, i + 1) == bytes@.subrange(8, i as int).push(bytes@[i as int]));
            }
            i = i + 1;
        }
        Ok(Byte::new(rest))
    }

    /// A cursor at the first of `bytes`.
    pub fn new(bytes: Vec<u8>) -> (r: Byte)
        ensures
            r.spec_bytes() == bytes@,
            r.spec_ptr() == 0,
    {
        Byte { bytes, byte_ptr: 0 }
    }

    /// Moves the cursor to `ptr`, which lies within the bytes.
    /// Takes the bytes from `start` up to `end` out of the buffer and hands
    /// them back; the bytes after them close up, and the position stays.
    pub fn drain(&mut self, start: usize, end: usize) -> (r: Vec<u8>)
        requires
            start <= end <= old(self).spec_bytes().len(),
        ensures
            r@ == old(self).spec_bytes().subrange(start as int, end as int),
            final(self).spec_bytes() == old(self).spec_bytes().subrange(0, start as int) + old(self).spec_bytes().subrange(
                end as int,
                old(self).spec_bytes().len() as int,
            ),
            final(self).spec_ptr() == old(self).spec_ptr(),
    {
        let ghost bytes = self.bytes@;
        let mut taken: Vec<u8> = Vec::new();
        let mut kept: Vec<u8> = Vec::new();
        let mut i: usize = 0;
        while i < self.bytes.len()
            invariant
                self.bytes@ == bytes,
                start <= end <= bytes.len(),
                i <= bytes.len(),
                taken@ == bytes.subrange(start as int, if i < start { start as int } else if i < end { i as int } else { end as int }),
                kept@ == if i <= start {
                    bytes.subrange(0, i as int)
                } else if i <= end {
                    bytes.subrange(0, start as int)
                } else {
                    bytes.subrange(0, start as int) + bytes.subrange(end as int, i as int)
                },
            decreases bytes.len() - i,
        {
            let b = self.bytes[i];
            if start <= i && i < end {
                taken.push(b);
            } else {
                kept.push(b);
            }
            proof {
                if i + 1 <= start {
                    assert(kept@ =~= bytes.subrange(0, i + 1));
                } else if i + 1 <= end {
                    assert(taken@ =~= bytes.subrange(start as int, i + 1));
                } else if i >= end {
                    assert(kept@ =~= bytes.subrange(0, start as int) + bytes.subrange(end as int, i + 1));
                }
            }
            i = i + 1;
        }
        self.bytes = kept;
        taken
    }

    pub fn set_ptr(&mut self, ptr: usize)
        requires
            ptr <= old(self).spec_bytes().len(),
        ensures
            final(self).spec_bytes() == old(self).spec_bytes(),
            final(self).spec_ptr() == ptr,
    {
        self.byte_ptr = ptr;
    }

    /// Whether a byte is left to read.
    pub fn has_next(&self) -> (r: bool)
        ensures
            r == (self.spec_ptr() < self.spec_bytes().len()),
    {
        self.byte_ptr < self.bytes.len()
    }
}

impl Byte {
    /// Decodes the rest of the instruction whose opcode `code` was just read and
    /// appends its byte form.
    fn decode_one(&mut self, code: u8, isa: Isa, expressions: &mut Vec<u8>) -> (r: WasmResult<()>)
        requires
            1 <= old(self).spec_ptr() <= old(self).spec_bytes().len(),
            old(self).spec_bytes().len() + 16 < usize::MAX,
            isa != Isa::Reserved,
        ensures
            final(self).spec_bytes() == old(self).spec_bytes(),
            final(self).spec_ptr() == spec_decode_one(
                old(self).spec_bytes(),
                (old(self).spec_ptr() - 1) as nat,
                code,
                isa,
            ).1,
            match spec_decode_one(
                old(self).spec_bytes(),
                (old(self).spec_ptr() - 1) as nat,
                code,
                isa,
            ).0 {
                Ok(out) => r is Ok && final(expressions)@ == old(expressions)@ + out,
                Err(e) => r == Err::<(), WasmError>(WasmError::Trap(e)),
            },
        decreases old(self).spec_bytes().len() - old(self).spec_ptr(), 1nat,
    {
        if isa == Isa::Block || isa == Isa::Loop {
            self.decode_block(code, isa, expressions)
        } else if isa == Isa::If {
            self.decode_if(code, expressions)
        } else {
            self.decode_immediates(code, isa, expressions)
        }
    }

    /// Decodes the body of a `block` or a `loop`.
    fn decode_block(&mut self, code: u8, isa: Isa, expressions: &mut Vec<u8>) -> (r: WasmResult<()>)
        requires
            1 <= old(self).spec_ptr() <= old(self).spec_bytes().len(),
            old(self).spec_bytes().len() + 16 < usize::MAX,
            isa == Isa::Block || isa == Isa::Loop,
        ensures
            final(self).spec_bytes() == old(self).spec_bytes(),
            final(self).spec_ptr() == spec_decode_one(
                old(self).spec_bytes(),
                (old(self).spec_ptr() - 1) as nat,
                code,
                isa,
            ).1,
            match spec_decode_one(
                old(self).spec_bytes(),
                (old(self).spec_ptr() - 1) as nat,
                code,
                isa,
            ).0 {
                Ok(out) => r is Ok && final(expressions)@ == old(expressions)@ + out,
                Err(e) => r == Err::<(), WasmError>(WasmError::Trap(e)),
            },
        decreases old(self).spec_bytes().len() - old(self).spec_ptr(), 0nat,
    {
        let ghost bytes = self.spec_bytes();
        let ghost ptr = (self.spec_ptr() - 1) as nat;
        let block_type = match self.next() {
            Some(b) => b,
            None => return Err(WasmError::Trap(Trap::UnexpectedEnd)),
        };
        let mut instructions = match self.decode_instructions() {
            Ok(v) => v,
            Err(e) => return Err(e),
        };
        if isa == Isa::Block {
            let size = ((instructions.len() as u64 % 0x1_0000_0000) as u32).wrapping_add(6);
            proof {
                lemma_wrap_u32_add(instructions@.len(), 6);
            }
            expressions.push(code);
            self.push_u32_as_bytes(size, expressions);
            expressions.push(block_type);
            expressions.append(&mut instructions);
        } else {
            expressions.push(code);
            expressions.push(block_type);
            expressions.append(&mut instructions);
        }
        proof {
            assert(expressions@ =~= old(expressions)@ + spec_decode_one(bytes, ptr, code, isa).0->Ok_0);
        }
        Ok(())
    }

    /// Decodes the arms of an `if`: the first up to its `else` or `end`, and,
    /// after an `else`, the second.
    #[verifier::rlimit(50)]
    #[verifier::spinoff_prover]
    fn decode_if(&mut self, code: u8, expressions: &mut Vec<u8>) -> (r: WasmResult<()>)
        requires
            1 <= old(self).spec_ptr() <= old(self).spec_bytes().len(),
            old(self).spec_bytes().len() + 16 < usize::MAX,
        ensures
            final(self).spec_bytes() == old(self).spec_bytes(),
            final(self).spec_ptr() == spec_decode_one(
                old(self).spec_bytes(),
                (old(self).spec_ptr() - 1) as nat,
                code,
                Isa::If,
            ).1,
            match spec_decode_one(
                old(self).spec_bytes(),
                (old(self).spec_ptr() - 1) as nat,
                code,
                Isa::If,
            ).0 {
                Ok(out) => r is Ok && final(expressions)@ == old(expressions)@ + out,
                Err(e) => r == Err::<(), WasmError>(WasmError::Trap(e)),
            },
        decreases old(self).spec_bytes().len() - old(self).spec_ptr(), 0nat,
    {
        let ghost bytes = self.spec_bytes();
        let ghost ptr = (self.spec_ptr() - 1) as nat;
        let block_type = match self.next() {
            Some(b) => b,
            None => return Err(WasmError::Trap(Trap::UnexpectedEnd)),
        };
        let mut instructions = match self.decode_instructions() {
            Ok(v) => v,
            Err(e) => return Err(e),
        };
        proof {
            lemma_instructions_progress(bytes, ptr + 2);
            lemma_seq_ends_with_terminator(bytes, ptr + 2, seq![]);
        }
        let last = instructions[instructions.len() - 1];
        let mut else_insts = if last == 0x05 {
            match self.decode_instructions() {
                Ok(v) => v,
                Err(e) => return Err(e),
            }
        } else {
            Vec::new()
        };
        let size_of_if = ((instructions.len() as u64 % 0x1_0000_0000) as u32).wrapping_add(10);
        let size_of_else = ((else_insts.len() as u64 % 0x1_0000_0000) as u32).wrapping_add(0);
        proof {
            lemma_wrap_u32_add(instructions@.len(), 10);
            lemma_wrap_u32_add(else_insts@.len(), 0);
        }
        expressions.push(code);
        self.push_u32_as_bytes(size_of_if, expressions);
        self.push_u32_as_bytes(size_of_else, expressions);
        expressions.push(block_type);
        expressions.append(&mut instructions);
        expressions.append(&mut else_insts);
        proof {
            assert(expressions@ =~= old(expressions)@ + spec_decode_one(bytes, ptr, code, Isa::If).0->Ok_0);
        }
        Ok(())
    }

    /// Decodes the immediates of an instruction that opens no block.
    fn decode_immediates(&mut self, code: u8, isa: Isa, expressions: &mut Vec<u8>) -> (r: WasmResult<()>)
        requires
            cursor_ok(old(self).spec_bytes(), old(self).spec_ptr()),
        ensures
            final(self).spec_bytes() == old(self).spec_bytes(),
            final(self).spec_ptr() == spec_immediates(old(self).spec_bytes(), old(self).spec_ptr(), code, isa).1,
            match spec_immediates(old(self).spec_bytes(), old(self).spec_ptr(), code, isa).0 {
                Ok(out) => r is Ok && final(expressions)@ == old(expressions)@ + out,
                Err(e) => r == Err::<(), WasmError>(WasmError::Trap(e)),
            },
    {
        match isa {
            Isa::GetLocal | Isa::SetLocal | Isa::TeeLocal | Isa::GetGlobal | Isa::SetGlobal
            | Isa::Br | Isa::BrIf | Isa::Call => self.decode_index_immediate(code, expressions),
            Isa::BrTable => self.decode_br_table(code, expressions),
            Isa::CallIndirect => self.decode_call_indirect(code, expressions),
            Isa::I32Const => self.decode_i32_const(code, expressions),
            Isa::I64Const => self.decode_i64_const(code, expressions),
            Isa::F32Const => self.decode_f32_const(code, expressions),
            Isa::F64Const => self.decode_f64_const(code, expressions),
            Isa::I32Load | Isa::I64Load | Isa::F32Load | Isa::F64Load | Isa::I32Load8Sign
            | Isa::I32Load8Unsign | Isa::I32Load16Sign | Isa::I32Load16Unsign | Isa::I64Load8Sign
            | Isa::I64Load8Unsign | Isa::I64Load16Sign | Isa::I64Load16Unsign | Isa::I64Load32Sign
            | Isa::I64Load32Unsign | Isa::I32Store | Isa::I64Store | Isa::F32Store | Isa::F64Store
            | Isa::I32Store8 | Isa::I32Store16 | Isa::I64Store8 | Isa::I64Store16 | Isa::I64Store32 => {
                proof {
                    reveal(spec_memory_immediates);
                }
                self.decode_memory(code, expressions)
            },
            Isa::MemorySize | Isa::MemoryGrow => self.decode_reserved_byte(code, expressions),
            _ => {
                expressions.push(code);
                proof {
                    assert(expressions@ =~= old(expressions)@ + seq![code]);
                }
                Ok(())
            },
        }
    }

    /// An instruction with one index immediate.
    fn decode_index_immediate(&mut self, code: u8, expressions: &mut Vec<u8>) -> (r: WasmResult<()>)
        requires
            cursor_ok(old(self).spec_bytes(), old(self).spec_ptr()),
        ensures
            final(self).spec_bytes() == old(self).spec_bytes(),
            final(self).spec_ptr() == spec_index_immediate(old(self).spec_bytes(), old(self).spec_ptr(), code).1,
            match spec_index_immediate(old(self).spec_bytes(), old(self).spec_ptr(), code).0 {
                Ok(out) => r is Ok && final(expressions)@ == old(expressions)@ + out,
                Err(e) => r == Err::<(), WasmError>(WasmError::Trap(e)),
            },
    {
        proof {
            reveal(spec_index_immediate);
        }
        let idx = match self.decode_leb128_u32() {
            Ok(v) => v,
            Err(e) => return Err(e),
        };
        expressions.push(code);
        self.push_u32_as_bytes(idx, expressions);
        proof {
            assert(expressions@ =~= old(expressions)@ + seq![code] + le_bytes_u32(idx));
        }
        Ok(())
    }

    /// An indirect call: the type index and a reserved byte, skipped unread.
    fn decode_call_indirect(&mut self, code: u8, expressions: &mut Vec<u8>) -> (r: WasmResult<()>)
        requires
            cursor_ok(old(self).spec_bytes(), old(self).spec_ptr()),
        ensures
            final(self).spec_bytes() == old(self).spec_bytes(),
            final(self).spec_ptr() == spec_call_indirect(old(self).spec_bytes(), old(self).spec_ptr(), code).1,
            match spec_call_indirect(old(self).spec_bytes(), old(self).spec_ptr(), code).0 {
                Ok(out) => r is Ok && final(expressions)@ == old(expressions)@ + out,
                Err(e) => r == Err::<(), WasmError>(WasmError::Trap(e)),
            },
    {
        proof {
            reveal(spec_call_indirect);
            lemma_spec_u32_ok(self.spec_bytes(), self.spec_ptr());
        }
        let idx = match self.decode_leb128_u32() {
            Ok(v) => v,
            Err(e) => return Err(e),
        };
        expressions.push(code);
        self.push_u32_as_bytes(idx, expressions);
        self.increment_ptr();
        proof {
            assert(expressions@ =~= old(expressions)@ + seq![code] + le_bytes_u32(idx));
        }
        Ok(())
    }

    /// A 32-bit integer constant.
    fn decode_i32_const(&mut self, code: u8, expressions: &mut Vec<u8>) -> (r: WasmResult<()>)
        requires
            cursor_ok(old(self).spec_bytes(), old(self).spec_ptr()),
        ensures
            final(self).spec_bytes() == old(self).spec_bytes(),
            final(self).spec_ptr() == spec_i32_const(old(self).spec_bytes(), old(self).spec_ptr(), code).1,
            match spec_i32_const(old(self).spec_bytes(), old(self).spec_ptr(), code).0 {
                Ok(out) => r is Ok && final(expressions)@ == old(expressions)@ + out,
                Err(e) => r == Err::<(), WasmError>(WasmError::Trap(e)),
            },
    {
        proof {
            reveal(spec_i32_const);
        }
        let value = match self.decode_leb128_i32() {
            Ok(v) => v,
            Err(e) => return Err(e),
        };
        expressions.push(code);
        self.push_u32_as_bytes(value as u32, expressions);
        proof {
            assert(expressions@ =~= old(expressions)@ + seq![code] + le_bytes_u32(value as u32));
        }
        Ok(())
    }

    /// A 64-bit integer constant.
    fn decode_i64_const(&mut self, code: u8, expressions: &mut Vec<u8>) -> (r: WasmResult<()>)
        requires
            cursor_ok(old(self).spec_bytes(), old(self).spec_ptr()),
        ensures
            final(self).spec_bytes() == old(self).spec_bytes(),
            final(self).spec_ptr() == spec_i64_const(old(self).spec_bytes(), old(self).spec_ptr(), code).1,
            match spec_i64_const(old(self).spec_bytes(), old(self).spec_ptr(), code).0 {
                Ok(out) => r is Ok && final(expressions)@ == old(expressions)@ + out,
                Err(e) => r == Err::<(), WasmError>(WasmError::Trap(e)),
            },
    {
        proof {
            reveal(spec_i64_const);
        }
        let value = match self.decode_leb128_i64() {
            Ok(v) => v,
            Err(e) => return Err(e),
        };
        expressions.push(code);
        self.push_u64_as_bytes(value as u64, expressions);
        proof {
            assert(expressions@ =~= old(expressions)@ + seq![code] + le_bytes_u64(value as u64));
        }
        Ok(())
    }

    /// A 32-bit float constant, copied as its raw bytes.
    fn decode_f32_const(&mut self, code: u8, expressions: &mut Vec<u8>) -> (r: WasmResult<()>)
        requires
            cursor_ok(old(self).spec_bytes(), old(self).spec_ptr()),
        ensures
            final(self).spec_bytes() == old(self).spec_bytes(),
            final(self).spec_ptr() == spec_float_const(old(self).spec_bytes(), old(self).spec_ptr(), code, 4).1,
            match spec_float_const(old(self).spec_bytes(), old(self).spec_ptr(), code, 4).0 {
                Ok(out) => r is Ok && final(expressions)@ == old(expressions)@ + out,
                Err(e) => r == Err::<(), WasmError>(WasmError::Trap(e)),
            },
    {
        proof {
            reveal(spec_float_const);
        }
        let ghost bytes = self.spec_bytes();
        let ghost p = self.spec_ptr();
        let value = match self.decode_f32() {
            Ok(v) => v,
            Err(e) => return Err(e),
        };
        proof {
            let raw = bytes.subrange(p as int, (p + 4) as int);
            lemma_le_bytes_u32(raw[0], raw[1], raw[2], raw[3]);
            assert(raw =~= seq![raw[0], raw[1], raw[2], raw[3]]);
        }
        expressions.push(code);
        self.push_u32_as_bytes(value, expressions);
        proof {
            assert(expressions@ =~= old(expressions)@ + seq![code] + bytes.subrange(p as int, (p + 4) as int));
        }
        Ok(())
    }

    /// A 64-bit float constant, copied as its raw bytes.
    fn decode_f64_const(&mut self, code: u8, expressions: &mut Vec<u8>) -> (r: WasmResult<()>)
        requires
            cursor_ok(old(self).spec_bytes(), old(self).spec_ptr()),
        ensures
            final(self).spec_bytes() == old(self).spec_bytes(),
            final(self).spec_ptr() == spec_float_const(old(self).spec_bytes(), old(self).spec_ptr(), code, 8).1,
            match spec_float_const(old(self).spec_bytes(), old(self).spec_ptr(), code, 8).0 {
                Ok(out) => r is Ok && final(expressions)@ == old(expressions)@ + out,
                Err(e) => r == Err::<(), WasmError>(WasmError::Trap(e)),
            },
    {
        proof {
            reveal(spec_float_const);
        }
        let ghost bytes = self.spec_bytes();
        let ghost p = self.spec_ptr();
        let value = match self.decode_f64() {
            Ok(v) => v,
            Err(e) => return Err(e),
        };
        proof {
            lemma_le_bytes_u64(bytes.subrange(p as int, (p + 8) as int));
        }
        expressions.push(code);
        self.push_u64_as_bytes(value, expressions);
        proof {
            assert(expressions@ =~= old(expressions)@ + seq![code] + bytes.subrange(p as int, (p + 8) as int));
        }
        Ok(())
    }

    /// `memory.size` and `memory.grow`: a reserved byte follows.
    fn decode_reserved_byte(&mut self, code: u8, expressions: &mut Vec<u8>) -> (r: WasmResult<()>)
        requires
            cursor_ok(old(self).spec_bytes(), old(self).spec_ptr()),
        ensures
            final(self).spec_bytes() == old(self).spec_bytes(),
            final(self).spec_ptr() == spec_reserved_byte(old(self).spec_bytes(), old(self).spec_ptr(), code).1,
            match spec_reserved_byte(old(self).spec_bytes(), old(self).spec_ptr(), code).0 {
                Ok(out) => r is Ok && final(expressions)@ == old(expressions)@ + out,
                Err(e) => r == Err::<(), WasmError>(WasmError::Trap(e)),
            },
    {
        proof {
            reveal(spec_reserved_byte);
        }
        match self.next() {
            Some(_) => {},
            None => return Err(WasmError::Trap(Trap::UnexpectedEnd)),
        }
        expressions.push(code);
        proof {
            assert(expressions@ =~= old(expressions)@ + seq![code]);
        }
        Ok(())
    }

    /// A branch table: the count, the label indices and the default label.
    fn decode_br_table(&mut self, code: u8, expressions: &mut Vec<u8>) -> (r: WasmResult<()>)
        requires
            cursor_ok(old(self).spec_bytes(), old(self).spec_ptr()),
        ensures
            final(self).spec_bytes() == old(self).spec_bytes(),
            final(self).spec_ptr() == spec_br_table(old(self).spec_bytes(), old(self).spec_ptr(), code).1,
            match spec_br_table(old(self).spec_bytes(), old(self).spec_ptr(), code).0 {
                Ok(out) => r is Ok && final(expressions)@ == old(expressions)@ + out,
                Err(e) => r == Err::<(), WasmError>(WasmError::Trap(e)),
            },
    {
        proof {
            reveal(spec_br_table);
        }
        let ghost bytes = self.spec_bytes();
        let ghost p = self.spec_ptr();
        proof {
            lemma_spec_u32_ok(bytes, p);
        }
        let len = match self.decode_leb128_u32() {
            Ok(v) => v,
            Err(e) => return Err(e),
        };
        let ghost p2 = self.spec_ptr();
        let mut idxs: Vec<u8> = Vec::new();
        let mut i: u32 = 0;
        while i < len
            invariant
                self.spec_bytes() == bytes,
                bytes == old(self).spec_bytes(),
                p == old(self).spec_ptr(),
                spec_u32(bytes, p) == (Ok::<u32, Trap>(len), p2),
                cursor_ok(bytes, p2),
                i <= len,
                cursor_ok(bytes, self.spec_ptr()),
                spec_br_table_indices(bytes, p2, i as nat) == (Ok::<Seq<u8>, Trap>(idxs@), self.spec_ptr() as nat),
            decreases len - i,
        {
            let ghost q = self.spec_ptr();
            proof {
                lemma_spec_u32_ok(bytes, q);
            }
            let idx = match self.decode_leb128_u32() {
                Ok(v) => v,
                Err(e) => {
                    proof {
                        reveal(spec_br_table);
                        lemma_br_table_error(bytes, p2, i as nat, (len - i) as nat);
                    }
                    return Err(e);
                },
            };
            self.push_u32_as_bytes(idx, &mut idxs);
            i = i + 1;
        }
        let default = match self.decode_leb128_u32() {
            Ok(v) => v,
            Err(e) => return Err(e),
        };
        expressions.push(code);
        self.push_u32_as_bytes(len, expressions);
        expressions.append(&mut idxs);
        self.push_u32_as_bytes(default, expressions);
        proof {
            assert(expressions@ =~= old(expressions)@ + (seq![code] + le_bytes_u32(len) + spec_br_table_indices(bytes, p2, len as nat).0->Ok_0 + le_bytes_u32(default)));
        }
        Ok(())
    }
}

/// When reading the `i`-th label index fails, reading all `i + k` fails the same way.
proof fn lemma_br_table_error(bytes: Seq<u8>, ptr: nat, i: nat, k: nat)
    requires
        k > 0,
        spec_br_table_indices(bytes, ptr, i).0 is Ok,
        spec_u32(bytes, spec_br_table_indices(bytes, ptr, i).1).0 is Err,
    ensures
        spec_br_table_indices(bytes, ptr, i + k) == (
            Err::<Seq<u8>, Trap>(spec_u32(bytes, spec_br_table_indices(bytes, ptr, i).1).0->Err_0),
            spec_u32(bytes, spec_br_table_indices(bytes, ptr, i).1).1,
        ),
    decreases k,
{
    if k > 1 {
        lemma_br_table_error(bytes, ptr, i, (k - 1) as nat);
        assert(spec_br_table_indices(bytes, ptr, i + k) == spec_br_table_indices(bytes, ptr, (i + k - 1) as nat));
    }
}

impl InstructionDecodable for Byte {
    fn decode_instructions(&mut self) -> (r: WasmResult<Vec<u8>>)
        decreases old(self).spec_bytes().len() - old(self).spec_ptr(), 1nat,
    {
        let ghost bytes = self.spec_bytes();
        let ghost start = self.spec_ptr();
        let mut expressions: Vec<u8> = Vec::new();
        while !Isa::is_else_or_end(self.peek())
            invariant
                self.spec_bytes() == bytes,
                bytes == old(self).spec_bytes(),
                start == old(self).spec_ptr(),
                cursor_ok(bytes, self.spec_ptr()),
                start <= self.spec_ptr(),
                spec_decode_instructions(bytes, start) == spec_decode_seq(
                    bytes,
                    self.spec_ptr(),
                    expressions@,
                ),
            decreases bytes.len() - self.spec_ptr(),
        {
            let ghost ptr = self.spec_ptr();
            let code = match self.next() {
                Some(c) => c,
                None => return Err(WasmError::Trap(Trap::UnexpectedEnd)),
            };
            if code > 0xbf || (0x1c <= code && code <= 0x1f) {
                return Err(WasmError::Trap(Trap::Unknown));
            }
            let isa = Isa::from(code);
            if isa == Isa::Reserved {
                return Err(WasmError::Trap(Trap::Unknown));
            }
            proof {
                lemma_one_progress(bytes, ptr, code, isa);
            }
            match self.decode_one(code, isa, &mut expressions) {
                Ok(()) => {},
                Err(e) => return Err(e),
            }
            if self.byte_ptr > self.bytes.len() {
                self.increment_ptr();
                return Err(WasmError::Trap(Trap::UnexpectedEnd));
            }
        }
        let end_code = match self.next() {
            Some(c) => c,
            None => return Err(WasmError::Trap(Trap::UnexpectedEnd)),
        };
        expressions.push(end_code);
        Ok(expressions)
    }
}

} // verus!
