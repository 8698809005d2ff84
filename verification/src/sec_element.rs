//! Element segments, and the element section.
use vstd::prelude::*;
use crate::byte::Byte;
use crate::decodable::{
    cursor_ok, lemma_repeat_error, lemma_spec_u32_ok, lemma_views_push, spec_repeat, spec_u32, u32_item,
    views, AbstractDecodable, U32Decodable,
};
use crate::error::{Trap, WasmError, WasmResult};
use crate::instruction::{InstructionDecodable, spec_decode_instructions, lemma_instructions_progress};

verus! {

/// An element segment: the table it fills, the instructions that compute its
/// offset, and the indices of the functions it places there.
#[derive(Debug)]
pub struct Element {
    pub table_idx: u32,
    pub offset: Vec<u8>,
    pub init: Vec<u32>,
}

impl View for Element {
    type V = (u32, Seq<u8>, Seq<u32>);

    open spec fn view(&self) -> (u32, Seq<u8>, Seq<u32>) {
        (self.table_idx, self.offset@, self.init@)
    }
}

impl Element {
    pub fn new(table_idx: u32, offset: Vec<u8>, init: Vec<u32>) -> (r: Element)
        ensures
            r@ == (table_idx, offset@, init@),
    {
        Element { table_idx, offset, init }
    }

    /// The index of the table that the segment fills.
    pub fn get_table_idx(&self) -> (r: usize)
        ensures
            r as nat == self.table_idx as nat,
    {
        self.table_idx as usize
    }

    /// A copy of the function indices of the segment.
    pub fn move_init_to(&self) -> (r: Vec<u32>)
        ensures
            r@ == self.init@,
    {
        let r = self.init.clone();
        proof {
            assert(r@ =~= self.init@);
        }
        r
    }
}

/// An element segment: the table index, the offset expression, then a count
/// and that many function indices.
#[verifier::opaque]
pub open spec fn spec_element(bytes: Seq<u8>, ptr: nat) -> (Result<(u32, Seq<u8>, Seq<u32>), Trap>, nat) {
    let (table_idx, p1) = spec_u32(bytes, ptr);
    match table_idx {
        Err(e) => (Err(e), p1),
        Ok(table_idx) => {
            let (offset, p2) = spec_decode_instructions(bytes, p1);
            match offset {
                Err(e) => (Err(e), p2),
                Ok(offset) => {
                    let (n, p3) = spec_u32(bytes, p2);
                    match n {
                        Err(e) => (Err(e), p3),
                        Ok(n) => {
                            let (init, p4) = spec_repeat(bytes, p3, n as nat, u32_item());
                            match init {
                                Err(e) => (Err(e), p4),
                                Ok(init) => (Ok((table_idx, offset, init)), p4),
                            }
                        },
                    }
                },
            }
        },
    }
}

/// Reading element segments.
pub open spec fn element_item() -> spec_fn(Seq<u8>, nat) -> (Result<(u32, Seq<u8>, Seq<u32>), Trap>, nat) {
    |b: Seq<u8>, p: nat| spec_element(b, p)
}

/// The element section: a count, then that many element segments.
pub open spec fn spec_element_section(bytes: Seq<u8>, ptr: nat) -> (Result<Seq<(u32, Seq<u8>, Seq<u32>)>, Trap>, nat) {
    let (n, p) = spec_u32(bytes, ptr);
    match n {
        Err(e) => (Err(e), p),
        Ok(n) => spec_repeat(bytes, p, n as nat, element_item()),
    }
}

impl Byte {
    /// Reads the function indices of an element segment: a count, then the indices.
    pub fn decode_function_idx(&mut self) -> (r: WasmResult<Vec<u32>>)
        requires
            cursor_ok(old(self).spec_bytes(), old(self).spec_ptr()),
        ensures
            final(self).spec_bytes() == old(self).spec_bytes(),
            ({
                let (n, p) = spec_u32(old(self).spec_bytes(), old(self).spec_ptr());
                match n {
                    Err(e) => r == Err::<Vec<u32>, WasmError>(WasmError::Trap(e)) && final(self).spec_ptr() == p,
                    Ok(n) => final(self).spec_ptr() == spec_repeat(old(self).spec_bytes(), p, n as nat, u32_item()).1
                        && match spec_repeat(old(self).spec_bytes(), p, n as nat, u32_item()).0 {
                            Ok(v) => r matches Ok(x) && x@ == v,
                            Err(e) => r == Err::<Vec<u32>, WasmError>(WasmError::Trap(e)),
                        },
                }
            }),
            r is Ok ==> cursor_ok(final(self).spec_bytes(), final(self).spec_ptr()),
    {
        proof {
            lemma_spec_u32_ok(self.spec_bytes(), self.spec_ptr());
        }
        let count = match self.decode_leb128_u32() {
            Ok(n) => n,
            Err(e) => return Err(e),
        };
        self.decode_u32s(count)
    }

    /// Reads one element segment.
    pub fn decode_element(&mut self) -> (r: WasmResult<Element>)
        requires
            cursor_ok(old(self).spec_bytes(), old(self).spec_ptr()),
        ensures
            final(self).spec_bytes() == old(self).spec_bytes(),
            final(self).spec_ptr() == spec_element(old(self).spec_bytes(), old(self).spec_ptr()).1,
            match spec_element(old(self).spec_bytes(), old(self).spec_ptr()).0 {
                Ok(v) => r matches Ok(x) && x@ == v,
                Err(e) => r == Err::<Element, WasmError>(WasmError::Trap(e)),
            },
            r is Ok ==> cursor_ok(final(self).spec_bytes(), final(self).spec_ptr()),
    {
        let ghost bytes = self.spec_bytes();
        proof {
            reveal(spec_element);
            lemma_spec_u32_ok(bytes, self.spec_ptr());
        }
        let table_idx = match self.decode_leb128_u32() {
            Ok(n) => n,
            Err(e) => return Err(e),
        };
        proof {
            lemma_instructions_progress(bytes, self.spec_ptr());
        }
        let offset = match self.decode_instructions() {
            Ok(v) => v,
            Err(e) => return Err(e),
        };
        let init = match self.decode_function_idx() {
            Ok(v) => v,
            Err(e) => return Err(e),
        };
        Ok(Element::new(table_idx, offset, init))
    }

    /// Decodes the bytes of an element section.
    pub fn decode_element_section(&mut self) -> (r: WasmResult<Vec<Element>>)
        requires
            cursor_ok(old(self).spec_bytes(), old(self).spec_ptr()),
        ensures
            final(self).spec_bytes() == old(self).spec_bytes(),
            final(self).spec_ptr() == spec_element_section(old(self).spec_bytes(), old(self).spec_ptr()).1,
            match spec_element_section(old(self).spec_bytes(), old(self).spec_ptr()).0 {
                Ok(v) => r matches Ok(x) && views(x@) == v,
                Err(e) => r == Err::<Vec<Element>, WasmError>(WasmError::Trap(e)),
            },
    {
        let ghost bytes = self.spec_bytes();
        proof {
            lemma_spec_u32_ok(bytes, self.spec_ptr());
        }
        let count = match self.decode_leb128_u32() {
            Ok(n) => n,
            Err(e) => return Err(e),
        };
        let ghost p0 = self.spec_ptr();
        let mut out: Vec<Element> = Vec::new();
        proof {
            assert(views(out@) =~= seq![]);
        }
        let mut i: u32 = 0;
        while i < count
            invariant
                self.spec_bytes() == bytes,
                bytes == old(self).spec_bytes(),
                spec_u32(bytes, old(self).spec_ptr()) == (Ok::<u32, Trap>(count), p0),
                i <= count,
                cursor_ok(bytes, self.spec_ptr()),
                spec_repeat(bytes, p0, i as nat, element_item()) == (Ok::<Seq<(u32, Seq<u8>, Seq<u32>)>, Trap>(views(out@)), self.spec_ptr()),
            decreases count - i,
        {
            let el = match self.decode_element() {
                Ok(el) => el,
                Err(e) => {
                    proof {
                        lemma_repeat_error(bytes, p0, i as nat, (count - i) as nat, element_item());
                    }
                    return Err(e);
                },
            };
            proof {
                lemma_views_push(out@, el);
            }
            out.push(el);
            i = i + 1;
        }
        Ok(out)
    }
}

} // verus!
