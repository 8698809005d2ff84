//! The code section: the locals and the body of each function.
use vstd::prelude::*;
use crate::byte::Byte;
use crate::decodable::{
    cursor_ok, lemma_repeat_error, lemma_spec_u32_ok, spec_repeat, spec_u32, spec_value_type_at,
    AbstractDecodable, U32Decodable,
};
use crate::error::{Trap, WasmError, WasmResult};
use crate::instruction::{InstructionDecodable, spec_decode_instructions, lemma_instructions_progress};
use crate::value_type::ValueTypes;

verus! {

/// One entry of local declarations: a count and a value type.
pub open spec fn spec_local_entry(bytes: Seq<u8>, ptr: nat) -> (Result<(u32, ValueTypes), Trap>, nat) {
    let (n, p) = spec_u32(bytes, ptr);
    match n {
        Err(e) => (Err(e), p),
        Ok(n) => {
            let (t, p2) = spec_value_type_at(bytes, p);
            match t {
                Err(e) => (Err(e), p2),
                Ok(t) => (Ok((n, t)), p2),
            }
        },
    }
}

/// Reading entries of local declarations.
pub open spec fn local_entry_item() -> spec_fn(Seq<u8>, nat) -> (Result<(u32, ValueTypes), Trap>, nat) {
    |b: Seq<u8>, p: nat| spec_local_entry(b, p)
}

/// The locals that entries declare: each entry's type, as many times as its count.
pub open spec fn expand_locals(entries: Seq<(u32, ValueTypes)>) -> Seq<ValueTypes>
    decreases entries.len(),
{
    if entries.len() == 0 {
        seq![]
    } else {
        let last = entries.last();
        expand_locals(entries.drop_last()) + Seq::new(last.0 as nat, |_i: int| last.1)
    }
}

/// The position where a function whose body starts at `start` and takes `size`
/// bytes ends, or the end of the bytes when the size points past them.
pub open spec fn end_of_function(bytes: Seq<u8>, start: nat, size: u32) -> nat {
    if start + size <= bytes.len() {
        (start + size) as nat
    } else {
        bytes.len()
    }
}

/// A function of the code section: its size, the local declarations, then the
/// body as an instruction sequence up to its `end`. A failure in the size or
/// the locals fails the section; a failure in the body is kept as the
/// function's outcome, and decoding goes on after the function.
#[verifier::opaque]
pub open spec fn spec_code(bytes: Seq<u8>, ptr: nat) -> (
    Result<Result<(Seq<u8>, Seq<ValueTypes>), WasmError>, Trap>,
    nat,
) {
    let (size, p1) = spec_u32(bytes, ptr);
    match size {
        Err(e) => (Err(e), p1),
        Ok(size) => {
            let (n, p2) = spec_u32(bytes, p1);
            match n {
                Err(e) => (Err(e), p2),
                Ok(n) => {
                    let (entries, p3) = spec_repeat(bytes, p2, n as nat, local_entry_item());
                    match entries {
                        Err(e) => (Err(e), p3),
                        Ok(entries) => {
                            let (body, p4) = spec_decode_instructions(bytes, p3);
                            match body {
                                Ok(body) => (Ok(Ok((body, expand_locals(entries)))), p4),
                                Err(e) => (Ok(Err(WasmError::Trap(e))), end_of_function(bytes, p1, size)),
                            }
                        },
                    }
                },
            }
        },
    }
}

/// Reading functions of the code section.
pub open spec fn code_item() -> spec_fn(Seq<u8>, nat) -> (
    Result<Result<(Seq<u8>, Seq<ValueTypes>), WasmError>, Trap>,
    nat,
) {
    |b: Seq<u8>, p: nat| spec_code(b, p)
}

/// The code section: a count, then that many functions.
pub open spec fn spec_code_section(bytes: Seq<u8>, ptr: nat) -> (
    Result<Seq<Result<(Seq<u8>, Seq<ValueTypes>), WasmError>>, Trap>,
    nat,
) {
    let (n, p) = spec_u32(bytes, ptr);
    match n {
        Err(e) => (Err(e), p),
        Ok(n) => spec_repeat(bytes, p, n as nat, code_item()),
    }
}

/// The view of a decoded function.
pub open spec fn code_view(c: WasmResult<(Vec<u8>, Vec<ValueTypes>)>) -> Result<(Seq<u8>, Seq<ValueTypes>), WasmError> {
    match c {
        Ok((body, locals)) => Ok((body@, locals@)),
        Err(e) => Err(e),
    }
}

/// The views of decoded functions.
pub open spec fn code_views(s: Seq<WasmResult<(Vec<u8>, Vec<ValueTypes>)>>) -> Seq<Result<(Seq<u8>, Seq<ValueTypes>), WasmError>> {
    s.map_values(|c: WasmResult<(Vec<u8>, Vec<ValueTypes>)>| code_view(c))
}

impl Byte {
    /// Reads `n` entries of local declarations and lists the locals they declare.
    pub fn decode_locals(&mut self, n: u32) -> (r: WasmResult<Vec<ValueTypes>>)
        requires
            cursor_ok(old(self).spec_bytes(), old(self).spec_ptr()),
        ensures
            final(self).spec_bytes() == old(self).spec_bytes(),
            final(self).spec_ptr() == spec_repeat(old(self).spec_bytes(), old(self).spec_ptr(), n as nat, local_entry_item()).1,
            match spec_repeat(old(self).spec_bytes(), old(self).spec_ptr(), n as nat, local_entry_item()).0 {
                Ok(entries) => r matches Ok(x) && x@ == expand_locals(entries),
                Err(e) => r == Err::<Vec<ValueTypes>, WasmError>(WasmError::Trap(e)),
            },
            r is Ok ==> cursor_ok(final(self).spec_bytes(), final(self).spec_ptr()),
    {
        let ghost bytes = self.spec_bytes();
        let ghost p0 = self.spec_ptr();
        let ghost mut entries: Seq<(u32, ValueTypes)> = seq![];
        let mut locals: Vec<ValueTypes> = Vec::new();
        let mut i: u32 = 0;
        while i < n
            invariant
                self.spec_bytes() == bytes,
                bytes == old(self).spec_bytes(),
                p0 == old(self).spec_ptr(),
                i <= n,
                cursor_ok(bytes, self.spec_ptr()),
                spec_repeat(bytes, p0, i as nat, local_entry_item()) == (Ok::<Seq<(u32, ValueTypes)>, Trap>(entries), self.spec_ptr()),
                locals@ == expand_locals(entries),
            decreases n - i,
        {
            proof {
                lemma_spec_u32_ok(bytes, self.spec_ptr());
            }
            let count_of_type = match self.decode_leb128_u32() {
                Ok(c) => c,
                Err(e) => {
                    proof {
                        lemma_repeat_error(bytes, p0, i as nat, (n - i) as nat, local_entry_item());
                    }
                    return Err(e);
                },
            };
            let value_type = match self.decode_value_type() {
                Ok(t) => t,
                Err(e) => {
                    proof {
                        lemma_repeat_error(bytes, p0, i as nat, (n - i) as nat, local_entry_item());
                    }
                    return Err(e);
                },
            };
            let ghost before = locals@;
            let mut j: u32 = 0;
            while j < count_of_type
                invariant
                    j <= count_of_type,
                    locals@ == before + Seq::new(j as nat, |_i: int| value_type),
                decreases count_of_type - j,
            {
                locals.push(value_type);
                proof {
                    assert(before + Seq::new((j + 1) as nat, |_i: int| value_type) =~= (before + Seq::new(j as nat, |_i: int| value_type)).push(value_type));
                }
                j = j + 1;
            }
            proof {
                let e = (count_of_type, value_type);
                assert(entries.push(e).drop_last() =~= entries);
                entries = entries.push(e);
            }
            i = i + 1;
        }
        Ok(locals)
    }

    /// Reads one function of the code section.
    pub fn decode_code(&mut self) -> (r: WasmResult<WasmResult<(Vec<u8>, Vec<ValueTypes>)>>)
        requires
            cursor_ok(old(self).spec_bytes(), old(self).spec_ptr()),
        ensures
            final(self).spec_bytes() == old(self).spec_bytes(),
            final(self).spec_ptr() == spec_code(old(self).spec_bytes(), old(self).spec_ptr()).1,
            match spec_code(old(self).spec_bytes(), old(self).spec_ptr()).0 {
                Ok(v) => r matches Ok(x) && code_view(x) == v,
                Err(e) => r == Err::<WasmResult<(Vec<u8>, Vec<ValueTypes>)>, WasmError>(WasmError::Trap(e)),
            },
            r is Ok ==> cursor_ok(final(self).spec_bytes(), final(self).spec_ptr()),
    {
        let ghost bytes = self.spec_bytes();
        proof {
            reveal(spec_code);
            lemma_spec_u32_ok(bytes, self.spec_ptr());
        }
        let size_of_function = match self.decode_leb128_u32() {
            Ok(n) => n,
            Err(e) => return Err(e),
        };
        let start = self.byte_ptr();
        let len = self.bytes().len();
        let end = if size_of_function as usize <= len - start {
            start + size_of_function as usize
        } else {
            len
        };
        proof {
            lemma_spec_u32_ok(bytes, self.spec_ptr());
        }
        let count_of_locals = match self.decode_leb128_u32() {
            Ok(n) => n,
            Err(e) => return Err(e),
        };
        let locals = match self.decode_locals(count_of_locals) {
            Ok(v) => v,
            Err(e) => return Err(e),
        };
        proof {
            lemma_instructions_progress(bytes, self.spec_ptr());
        }
        match self.decode_instructions() {
            Ok(expressions) => Ok(Ok((expressions, locals))),
            Err(err) => {
                self.set_ptr(end);
                Ok(Err(err))
            },
        }
    }

    /// Decodes the bytes of a code section.
    pub fn decode_code_section(&mut self) -> (r: WasmResult<Vec<WasmResult<(Vec<u8>, Vec<ValueTypes>)>>>)
        requires
            cursor_ok(old(self).spec_bytes(), old(self).spec_ptr()),
        ensures
            final(self).spec_bytes() == old(self).spec_bytes(),
            final(self).spec_ptr() == spec_code_section(old(self).spec_bytes(), old(self).spec_ptr()).1,
            match spec_code_section(old(self).spec_bytes(), old(self).spec_ptr()).0 {
                Ok(v) => r matches Ok(x) && code_views(x@) == v,
                Err(e) => r == Err::<Vec<WasmResult<(Vec<u8>, Vec<ValueTypes>)>>, WasmError>(WasmError::Trap(e)),
            },
    {
        let ghost bytes = self.spec_bytes();
        proof {
            lemma_spec_u32_ok(bytes, self.spec_ptr());
        }
        let count = match self.decode_leb128_u32() {
            Ok(n) => n,
            Err(e) => return Err(e),
        };
        let ghost p0 = self.spec_ptr();
        let mut out: Vec<WasmResult<(Vec<u8>, Vec<ValueTypes>)>> = Vec::new();
        proof {
            assert(code_views(out@) =~= seq![]);
        }
        let mut i: u32 = 0;
        while i < count
            invariant
                self.spec_bytes() == bytes,
                bytes == old(self).spec_bytes(),
                spec_u32(bytes, old(self).spec_ptr()) == (Ok::<u32, Trap>(count), p0),
                i <= count,
                cursor_ok(bytes, self.spec_ptr()),
                spec_repeat(bytes, p0, i as nat, code_item()) == (Ok::<Seq<Result<(Seq<u8>, Seq<ValueTypes>), WasmError>>, Trap>(code_views(out@)), self.spec_ptr()),
            decreases count - i,
        {
            let c = match self.decode_code() {
                Ok(c) => c,
                Err(e) => {
                    proof {
                        lemma_repeat_error(bytes, p0, i as nat, (count - i) as nat, code_item());
                    }
                    return Err(e);
                },
            };
            proof {
                assert(code_views(out@.push(c)) =~= code_views(out@).push(code_view(c)));
            }
            out.push(c);
            i = i + 1;
        }
        Ok(out)
    }
}

} // verus!
