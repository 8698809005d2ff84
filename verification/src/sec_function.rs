//! The function section, the memory section and the start section: the type
//! indices of the functions, the limits of the memories, the start function.
use vstd::prelude::*;
use crate::byte::Byte;
use crate::decodable::{
    cursor_ok, lemma_limit_ok, lemma_repeat_error, lemma_spec_u32_ok, spec_decode_limit, spec_repeat,
    spec_u32, u32_item, AbstractDecodable, LimitDecodable, U32Decodable,
};
use crate::error::{Trap, WasmError, WasmResult};
use crate::memory::Limit;

verus! {

/// The function section: a count, then the type index of each function.
pub open spec fn spec_function_section(bytes: Seq<u8>, ptr: nat) -> (Result<Seq<u32>, Trap>, nat) {
    let (n, p) = spec_u32(bytes, ptr);
    match n {
        Err(e) => (Err(e), p),
        Ok(n) => spec_repeat(bytes, p, n as nat, u32_item()),
    }
}

/// Reading limits.
pub open spec fn limit_item() -> spec_fn(Seq<u8>, nat) -> (Result<Limit, Trap>, nat) {
    |b: Seq<u8>, p: nat| spec_decode_limit(b, p)
}

/// The memory section: a count, then the limits of each memory.
pub open spec fn spec_memory_section(bytes: Seq<u8>, ptr: nat) -> (Result<Seq<Limit>, Trap>, nat) {
    let (n, p) = spec_u32(bytes, ptr);
    match n {
        Err(e) => (Err(e), p),
        Ok(n) => spec_repeat(bytes, p, n as nat, limit_item()),
    }
}

impl Byte {
    /// Reads `n` unsigned LEB128 integers of 32 bits.
    pub fn decode_u32s(&mut self, n: u32) -> (r: WasmResult<Vec<u32>>)
        requires
            cursor_ok(old(self).spec_bytes(), old(self).spec_ptr()),
        ensures
            final(self).spec_bytes() == old(self).spec_bytes(),
            final(self).spec_ptr() == spec_repeat(old(self).spec_bytes(), old(self).spec_ptr(), n as nat, u32_item()).1,
            match spec_repeat(old(self).spec_bytes(), old(self).spec_ptr(), n as nat, u32_item()).0 {
                Ok(v) => r matches Ok(x) && x@ == v,
                Err(e) => r == Err::<Vec<u32>, WasmError>(WasmError::Trap(e)),
            },
            r is Ok ==> cursor_ok(final(self).spec_bytes(), final(self).spec_ptr()),
    {
        let ghost bytes = self.spec_bytes();
        let ghost p0 = self.spec_ptr();
        let mut out: Vec<u32> = Vec::new();
        let mut i: u32 = 0;
        while i < n
            invariant
                self.spec_bytes() == bytes,
                bytes == old(self).spec_bytes(),
                p0 == old(self).spec_ptr(),
                i <= n,
                cursor_ok(bytes, self.spec_ptr()),
                spec_repeat(bytes, p0, i as nat, u32_item()) == (Ok::<Seq<u32>, Trap>(out@), self.spec_ptr()),
            decreases n - i,
        {
            proof {
                lemma_spec_u32_ok(bytes, self.spec_ptr());
            }
            let x = match self.decode_leb128_u32() {
                Ok(x) => x,
                Err(e) => {
                    proof {
                        lemma_repeat_error(bytes, p0, i as nat, (n - i) as nat, u32_item());
                    }
                    return Err(e);
                },
            };
            out.push(x);
            i = i + 1;
        }
        Ok(out)
    }

    /// Decodes the bytes of a function section.
    pub fn decode_function_section(&mut self) -> (r: WasmResult<Vec<u32>>)
        requires
            cursor_ok(old(self).spec_bytes(), old(self).spec_ptr()),
        ensures
            final(self).spec_bytes() == old(self).spec_bytes(),
            final(self).spec_ptr() == spec_function_section(old(self).spec_bytes(), old(self).spec_ptr()).1,
            match spec_function_section(old(self).spec_bytes(), old(self).spec_ptr()).0 {
                Ok(v) => r matches Ok(x) && x@ == v,
                Err(e) => r == Err::<Vec<u32>, WasmError>(WasmError::Trap(e)),
            },
    {
        proof {
            lemma_spec_u32_ok(self.spec_bytes(), self.spec_ptr());
        }
        let count = match self.decode_leb128_u32() {
            Ok(n) => n,
            Err(e) => return Err(e),
        };
        self.decode_u32s(count)
    }

    /// Decodes the bytes of a memory section.
    pub fn decode_memory_section(&mut self) -> (r: WasmResult<Vec<Limit>>)
        requires
            cursor_ok(old(self).spec_bytes(), old(self).spec_ptr()),
        ensures
            final(self).spec_bytes() == old(self).spec_bytes(),
            final(self).spec_ptr() == spec_memory_section(old(self).spec_bytes(), old(self).spec_ptr()).1,
            match spec_memory_section(old(self).spec_bytes(), old(self).spec_ptr()).0 {
                Ok(v) => r matches Ok(x) && x@ == v,
                Err(e) => r == Err::<Vec<Limit>, WasmError>(WasmError::Trap(e)),
            },
    {
        let ghost bytes = self.spec_bytes();
        proof {
            lemma_spec_u32_ok(bytes, self.spec_ptr());
        }
        let count = match self.decode_leb128_u32() {
            Ok(n) => n,
            Err(e) => return Err(e),
        };
        let ghost p0 = self.spec_ptr();
        let mut out: Vec<Limit> = Vec::new();
        let mut i: u32 = 0;
        while i < count
            invariant
                self.spec_bytes() == bytes,
                bytes == old(self).spec_bytes(),
                spec_u32(bytes, old(self).spec_ptr()) == (Ok::<u32, Trap>(count), p0),
                i <= count,
                cursor_ok(bytes, self.spec_ptr()),
                spec_repeat(bytes, p0, i as nat, limit_item()) == (Ok::<Seq<Limit>, Trap>(out@), self.spec_ptr()),
            decreases count - i,
        {
            proof {
                lemma_limit_ok(bytes, self.spec_ptr());
            }
            let limit = match self.decode_limit() {
                Ok(l) => l,
                Err(e) => {
                    proof {
                        lemma_repeat_error(bytes, p0, i as nat, (count - i) as nat, limit_item());
                    }
                    return Err(e);
                },
            };
            out.push(limit);
            i = i + 1;
        }
        Ok(out)
    }

    /// Decodes the bytes of a start section: the index of the start function.
    pub fn decode_start_section(&mut self) -> (r: WasmResult<u32>)
        requires
            cursor_ok(old(self).spec_bytes(), old(self).spec_ptr()),
        ensures
            final(self).spec_bytes() == old(self).spec_bytes(),
            final(self).spec_ptr() == spec_u32(old(self).spec_bytes(), old(self).spec_ptr()).1,
            r == crate::error::trap_result(spec_u32(old(self).spec_bytes(), old(self).spec_ptr()).0),
    {
        self.decode_leb128_u32()
    }
}

} // verus!
