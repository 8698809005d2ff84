//! Data segments, and the data section.
use vstd::prelude::*;
use crate::byte::Byte;
use crate::decodable::{
    cursor_ok, lemma_repeat_error, lemma_spec_u32_ok, lemma_views_push, spec_repeat, spec_u32, views,
    AbstractDecodable, U32Decodable, U8Iterator,
};
use crate::error::{Trap, WasmError, WasmResult};
use crate::instruction::{
    InstructionDecodable, spec_decode_instructions, spec_raw_bytes, lemma_instructions_progress,
};

verus! {

/// A data segment: the memory it fills, the instructions that compute its
/// offset, and its bytes.
#[derive(Debug)]
pub struct Data {
    pub memidx: u32,
    pub offset: Vec<u8>,
    pub init: Vec<u8>,
}

impl View for Data {
    type V = (u32, Seq<u8>, Seq<u8>);

    open spec fn view(&self) -> (u32, Seq<u8>, Seq<u8>) {
        (self.memidx, self.offset@, self.init@)
    }
}

impl Data {
    pub fn new(memidx: u32, offset: Vec<u8>, init: Vec<u8>) -> (r: Data)
        ensures
            r@ == (memidx, offset@, init@),
    {
        Data { memidx, offset, init }
    }

    /// The index of the memory that the segment fills.
    pub fn get_data_idx(&self) -> (r: u32)
        ensures
            r == self.memidx,
    {
        self.memidx
    }

    /// The bytes of the segment.
    pub fn get_init(self) -> (r: Vec<u8>)
        ensures
            r@ == self.init@,
    {
        self.init
    }
}

/// A data segment: the memory index, the offset expression, the byte count,
/// then the bytes.
#[verifier::opaque]
pub open spec fn spec_data(bytes: Seq<u8>, ptr: nat) -> (Result<(u32, Seq<u8>, Seq<u8>), Trap>, nat) {
    let (memidx, p1) = spec_u32(bytes, ptr);
    match memidx {
        Err(e) => (Err(e), p1),
        Ok(memidx) => {
            let (offset, p2) = spec_decode_instructions(bytes, p1);
            match offset {
                Err(e) => (Err(e), p2),
                Ok(offset) => {
                    let (size, p3) = spec_u32(bytes, p2);
                    match size {
                        Err(e) => (Err(e), p3),
                        Ok(size) => {
                            let (init, p4) = spec_raw_bytes(bytes, p3, size as nat);
                            match init {
                                Err(e) => (Err(e), p4),
                                Ok(init) => (Ok((memidx, offset, init)), p4),
                            }
                        },
                    }
                },
            }
        },
    }
}

/// Reading data segments.
pub open spec fn data_item() -> spec_fn(Seq<u8>, nat) -> (Result<(u32, Seq<u8>, Seq<u8>), Trap>, nat) {
    |b: Seq<u8>, p: nat| spec_data(b, p)
}

/// The data section: a count, then that many data segments.
pub open spec fn spec_data_section(bytes: Seq<u8>, ptr: nat) -> (Result<Seq<(u32, Seq<u8>, Seq<u8>)>, Trap>, nat) {
    let (n, p) = spec_u32(bytes, ptr);
    match n {
        Err(e) => (Err(e), p),
        Ok(n) => spec_repeat(bytes, p, n as nat, data_item()),
    }
}

impl Byte {
    /// Reads `n` raw bytes.
    pub fn decode_raw_bytes(&mut self, n: u32) -> (r: WasmResult<Vec<u8>>)
        requires
            cursor_ok(old(self).spec_bytes(), old(self).spec_ptr()),
        ensures
            final(self).spec_bytes() == old(self).spec_bytes(),
            final(self).spec_ptr() == spec_raw_bytes(old(self).spec_bytes(), old(self).spec_ptr(), n as nat).1,
            match spec_raw_bytes(old(self).spec_bytes(), old(self).spec_ptr(), n as nat).0 {
                Ok(v) => r matches Ok(x) && x@ == v,
                Err(e) => r == Err::<Vec<u8>, WasmError>(WasmError::Trap(e)),
            },
    {
        let ghost bytes = self.spec_bytes();
        let ghost p = self.spec_ptr();
        let mut out: Vec<u8> = Vec::new();
        let mut i: u32 = 0;
        while i < n
            invariant
                self.spec_bytes() == bytes,
                bytes == old(self).spec_bytes(),
                p == old(self).spec_ptr(),
                cursor_ok(bytes, p),
                i <= n,
                self.spec_ptr() == p + i,
                p + i <= bytes.len(),
                out@ == bytes.subrange(p as int, p + i),
            decreases n - i,
        {
            let b = match self.next() {
                Some(b) => b,
                None => return Err(WasmError::Trap(Trap::UnexpectedEnd)),
            };
            out.push(b);
            proof {
                assert(bytes.subrange(p as int, p + i + 1) == bytes.subrange(p as int, p + i).push(b));
            }
            i = i + 1;
        }
        Ok(out)
    }

    /// Reads one data segment.
    pub fn decode_data(&mut self) -> (r: WasmResult<Data>)
        requires
            cursor_ok(old(self).spec_bytes(), old(self).spec_ptr()),
        ensures
            final(self).spec_bytes() == old(self).spec_bytes(),
            final(self).spec_ptr() == spec_data(old(self).spec_bytes(), old(self).spec_ptr()).1,
            match spec_data(old(self).spec_bytes(), old(self).spec_ptr()).0 {
                Ok(v) => r matches Ok(x) && x@ == v,
                Err(e) => r == Err::<Data, WasmError>(WasmError::Trap(e)),
            },
            r is Ok ==> cursor_ok(final(self).spec_bytes(), final(self).spec_ptr()),
    {
        let ghost bytes = self.spec_bytes();
        proof {
            reveal(spec_data);
            lemma_spec_u32_ok(bytes, self.spec_ptr());
        }
        let memidx = match self.decode_leb128_u32() {
            Ok(n) => n,
            Err(e) => return Err(e),
        };
        proof {
            lemma_instructions_progress(bytes, self.spec_ptr());
        }
        let offset = match self.decode_instructions() {
            Ok(v) => v,
            Err(e) => return Err(e),
        };
        proof {
            lemma_spec_u32_ok(bytes, self.spec_ptr());
        }
        let size_of_data = match self.decode_leb128_u32() {
            Ok(n) => n,
            Err(e) => return Err(e),
        };
        let init = match self.decode_raw_bytes(size_of_data) {
            Ok(v) => v,
            Err(e) => return Err(e),
        };
        Ok(Data::new(memidx, offset, init))
    }

    /// Decodes the bytes of a data section.
    pub fn decode_data_section(&mut self) -> (r: WasmResult<Vec<Data>>)
        requires
            cursor_ok(old(self).spec_bytes(), old(self).spec_ptr()),
        ensures
            final(self).spec_bytes() == old(self).spec_bytes(),
            final(self).spec_ptr() == spec_data_section(old(self).spec_bytes(), old(self).spec_ptr()).1,
            match spec_data_section(old(self).spec_bytes(), old(self).spec_ptr()).0 {
                Ok(v) => r matches Ok(x) && views(x@) == v,
                Err(e) => r == Err::<Vec<Data>, WasmError>(WasmError::Trap(e)),
            },
    {
        let ghost bytes = self.spec_bytes();
        proof {
            lemma_spec_u32_ok(bytes, self.spec_ptr());
        }
        let count = match self.decode_leb128_u32() {
            Ok(n) => n,
            Err(e) => return Err(e),
        };
        let ghost p0 = self.spec_ptr();
        let mut out: Vec<Data> = Vec::new();
        proof {
            assert(views(out@) =~= seq![]);
        }
        let mut i: u32 = 0;
        while i < count
            invariant
                self.spec_bytes() == bytes,
                bytes == old(self).spec_bytes(),
                spec_u32(bytes, old(self).spec_ptr()) == (Ok::<u32, Trap>(count), p0),
                i <= count,
                cursor_ok(bytes, self.spec_ptr()),
                spec_repeat(bytes, p0, i as nat, data_item()) == (Ok::<Seq<(u32, Seq<u8>, Seq<u8>)>, Trap>(views(out@)), self.spec_ptr()),
            decreases count - i,
        {
            let d = match self.decode_data() {
                Ok(d) => d,
                Err(e) => {
                    proof {
                        lemma_repeat_error(bytes, p0, i as nat, (count - i) as nat, data_item());
                    }
                    return Err(e);
                },
            };
            proof {
                lemma_views_push(out@, d);
            }
            out.push(d);
            i = i + 1;
        }
        Ok(out)
    }
}

} // verus!
