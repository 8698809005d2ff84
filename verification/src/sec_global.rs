//! The global section: the type and the initializer of each global.
use vstd::prelude::*;
use crate::byte::Byte;
use crate::decodable::{
    byte_at, cursor_ok, lemma_repeat_error, lemma_spec_u32_ok, spec_repeat, spec_u32,
    spec_value_type_at, AbstractDecodable, U32Decodable, U8Iterator,
};
use crate::error::{Trap, WasmError, WasmResult};
use crate::global::{GlobalType, spec_global_type};
use crate::instruction::{InstructionDecodable, spec_decode_instructions, lemma_instructions_progress};

verus! {

/// A global: its value type, its mutability byte, then its initializer as an
/// instruction sequence up to its `end`.
#[verifier::opaque]
pub open spec fn spec_global(bytes: Seq<u8>, ptr: nat) -> (Result<(GlobalType, Seq<u8>), Trap>, nat) {
    let (vt, p1) = spec_value_type_at(bytes, ptr);
    match vt {
        Err(e) => (Err(e), p1),
        Ok(vt) => match spec_global_type(byte_at(bytes, p1), vt) {
            Err(e) => (Err(e), p1 + 1),
            Ok(gt) => {
                let (init, p3) = spec_decode_instructions(bytes, p1 + 1);
                match init {
                    Err(e) => (Err(e), p3),
                    Ok(init) => (Ok((gt, init)), p3),
                }
            },
        },
    }
}

/// Reading globals.
pub open spec fn global_item() -> spec_fn(Seq<u8>, nat) -> (Result<(GlobalType, Seq<u8>), Trap>, nat) {
    |b: Seq<u8>, p: nat| spec_global(b, p)
}

/// The global section: a count, then that many globals.
pub open spec fn spec_global_section(bytes: Seq<u8>, ptr: nat) -> (Result<Seq<(GlobalType, Seq<u8>)>, Trap>, nat) {
    let (n, p) = spec_u32(bytes, ptr);
    match n {
        Err(e) => (Err(e), p),
        Ok(n) => spec_repeat(bytes, p, n as nat, global_item()),
    }
}

/// The view of a decoded global.
pub open spec fn global_view(g: (GlobalType, Vec<u8>)) -> (GlobalType, Seq<u8>) {
    (g.0, g.1@)
}

/// The views of decoded globals.
pub open spec fn global_views(s: Seq<(GlobalType, Vec<u8>)>) -> Seq<(GlobalType, Seq<u8>)> {
    s.map_values(|g: (GlobalType, Vec<u8>)| global_view(g))
}

impl Byte {
    /// Reads one global.
    pub fn decode_global(&mut self) -> (r: WasmResult<(GlobalType, Vec<u8>)>)
        requires
            cursor_ok(old(self).spec_bytes(), old(self).spec_ptr()),
        ensures
            final(self).spec_bytes() == old(self).spec_bytes(),
            final(self).spec_ptr() == spec_global(old(self).spec_bytes(), old(self).spec_ptr()).1,
            match spec_global(old(self).spec_bytes(), old(self).spec_ptr()).0 {
                Ok(v) => r matches Ok(x) && global_view(x) == v,
                Err(e) => r == Err::<(GlobalType, Vec<u8>), WasmError>(WasmError::Trap(e)),
            },
            r is Ok ==> cursor_ok(final(self).spec_bytes(), final(self).spec_ptr()),
    {
        let ghost bytes = self.spec_bytes();
        proof {
            reveal(spec_global);
        }
        let value_type = match self.decode_value_type() {
            Ok(t) => t,
            Err(e) => return Err(e),
        };
        let global_type = match GlobalType::new(self.next(), value_type) {
            Ok(g) => g,
            Err(e) => return Err(WasmError::Trap(e)),
        };
        proof {
            lemma_instructions_progress(bytes, self.spec_ptr());
        }
        let init = match self.decode_instructions() {
            Ok(v) => v,
            Err(e) => return Err(e),
        };
        Ok((global_type, init))
    }

    /// Decodes the bytes of a global section.
    pub fn decode_global_section(&mut self) -> (r: WasmResult<Vec<(GlobalType, Vec<u8>)>>)
        requires
            cursor_ok(old(self).spec_bytes(), old(self).spec_ptr()),
        ensures
            final(self).spec_bytes() == old(self).spec_bytes(),
            final(self).spec_ptr() == spec_global_section(old(self).spec_bytes(), old(self).spec_ptr()).1,
            match spec_global_section(old(self).spec_bytes(), old(self).spec_ptr()).0 {
                Ok(v) => r matches Ok(x) && global_views(x@) == v,
                Err(e) => r == Err::<Vec<(GlobalType, Vec<u8>)>, WasmError>(WasmError::Trap(e)),
            },
    {
        let ghost bytes = self.spec_bytes();
        proof {
            lemma_spec_u32_ok(bytes, self.spec_ptr());
        }
        let count = match self.decode_leb128_u32() {
            Ok(n) => n,
            Err(e) => return Err(e),
        };
        let ghost p0 = self.spec_ptr();
        let mut out: Vec<(GlobalType, Vec<u8>)> = Vec::new();
        proof {
            assert(global_views(out@) =~= seq![]);
        }
        let mut i: u32 = 0;
        while i < count
            invariant
                self.spec_bytes() == bytes,
                bytes == old(self).spec_bytes(),
                spec_u32(bytes, old(self).spec_ptr()) == (Ok::<u32, Trap>(count), p0),
                i <= count,
                cursor_ok(bytes, self.spec_ptr()),
                spec_repeat(bytes, p0, i as nat, global_item()) == (Ok::<Seq<(GlobalType, Seq<u8>)>, Trap>(global_views(out@)), self.spec_ptr()),
            decreases count - i,
        {
            let g = match self.decode_global() {
                Ok(g) => g,
                Err(e) => {
                    proof {
                        lemma_repeat_error(bytes, p0, i as nat, (count - i) as nat, global_item());
                    }
                    return Err(e);
                },
            };
            proof {
                assert(global_views(out@.push(g)) =~= global_views(out@).push(global_view(g)));
            }
            out.push(g);
            i = i + 1;
        }
        Ok(out)
    }
}

} // verus!
