//! Table types, and the table section.
use vstd::prelude::*;
use crate::byte::Byte;
use crate::decodable::{
    byte_at, cursor_ok, decoded, lemma_limit_ok, lemma_repeat_error, lemma_spec_u32_ok, spec_decode_limit,
    spec_repeat, spec_u32, AbstractDecodable, LimitDecodable, U32Decodable, U8Iterator,
};
use crate::error::{Trap, WasmError, WasmResult};
use crate::memory::Limit;

verus! {

/// The type of the elements of a table: function references.
#[derive(Debug, Clone, Copy, PartialEq, Eq, Structural)]
pub enum ElementType {
    AnyFunc,
}

/// The element type that a byte encodes: 0x70 for function references.
pub open spec fn spec_element_type_at(bytes: Seq<u8>, ptr: nat) -> (Result<ElementType, Trap>, nat) {
    match byte_at(bytes, ptr) {
        None => (Err(Trap::UnexpectedEnd), ptr + 1),
        Some(c) => if c == 0x70 {
            (Ok(ElementType::AnyFunc), ptr + 1)
        } else {
            (Err(Trap::Unknown), ptr + 1)
        },
    }
}

impl ElementType {
    /// The element type of a byte, or `Unknown`; a missing byte is an unexpected end.
    pub fn from_code(code: Option<u8>) -> (r: Result<ElementType, Trap>)
        ensures
            r == match code {
                None => Err(Trap::UnexpectedEnd),
                Some(c) => if c == 0x70 {
                    Ok(ElementType::AnyFunc)
                } else {
                    Err(Trap::Unknown)
                },
            },
    {
        match code {
            None => Err(Trap::UnexpectedEnd),
            Some(0x70) => Ok(ElementType::AnyFunc),
            Some(_) => Err(Trap::Unknown),
        }
    }
}

/// The type of a table: its element type and its limits.
#[derive(Debug, Clone, Copy, PartialEq, Eq, Structural)]
pub struct TableType {
    pub element_type: ElementType,
    pub limit: Limit,
}

impl TableType {
    pub fn new(element_type: ElementType, limit: Limit) -> (r: TableType)
        ensures
            r == (TableType { element_type, limit }),
    {
        TableType { element_type, limit }
    }
}

/// A table type: the element type byte, then the limits.
pub open spec fn spec_table_type(bytes: Seq<u8>, ptr: nat) -> (Result<TableType, Trap>, nat) {
    let (et, p) = spec_element_type_at(bytes, ptr);
    match et {
        Err(e) => (Err(e), p),
        Ok(et) => {
            let (limit, p2) = spec_decode_limit(bytes, p);
            match limit {
                Err(e) => (Err(e), p2),
                Ok(limit) => (Ok(TableType { element_type: et, limit }), p2),
            }
        },
    }
}

/// Reading table types.
pub open spec fn table_type_item() -> spec_fn(Seq<u8>, nat) -> (Result<TableType, Trap>, nat) {
    |b: Seq<u8>, p: nat| spec_table_type(b, p)
}

/// The table section: a count, then that many table types.
pub open spec fn spec_table_section(bytes: Seq<u8>, ptr: nat) -> (Result<Seq<TableType>, Trap>, nat) {
    let (n, p) = spec_u32(bytes, ptr);
    match n {
        Err(e) => (Err(e), p),
        Ok(n) => spec_repeat(bytes, p, n as nat, table_type_item()),
    }
}

impl Byte {
    /// Reads one table type.
    pub fn decode_table_type(&mut self) -> (r: WasmResult<TableType>)
        requires
            cursor_ok(old(self).spec_bytes(), old(self).spec_ptr()),
        ensures
            final(self).spec_bytes() == old(self).spec_bytes(),
            final(self).spec_ptr() == spec_table_type(old(self).spec_bytes(), old(self).spec_ptr()).1,
            decoded(r, spec_table_type(old(self).spec_bytes(), old(self).spec_ptr()).0),
            r is Ok ==> cursor_ok(final(self).spec_bytes(), final(self).spec_ptr()),
    {
        let ghost bytes = self.spec_bytes();
        let element_type = match ElementType::from_code(self.next()) {
            Ok(t) => t,
            Err(e) => return Err(WasmError::Trap(e)),
        };
        proof {
            lemma_limit_ok(bytes, self.spec_ptr());
        }
        let limit = match self.decode_limit() {
            Ok(l) => l,
            Err(e) => return Err(e),
        };
        Ok(TableType::new(element_type, limit))
    }

    /// Decodes the bytes of a table section.
    pub fn decode_table_section(&mut self) -> (r: WasmResult<Vec<TableType>>)
        requires
            cursor_ok(old(self).spec_bytes(), old(self).spec_ptr()),
        ensures
            final(self).spec_bytes() == old(self).spec_bytes(),
            final(self).spec_ptr() == spec_table_section(old(self).spec_bytes(), old(self).spec_ptr()).1,
            match spec_table_section(old(self).spec_bytes(), old(self).spec_ptr()).0 {
                Ok(v) => r matches Ok(x) && x@ == v,
                Err(e) => r == Err::<Vec<TableType>, WasmError>(WasmError::Trap(e)),
            },
    {
        let ghost bytes = self.spec_bytes();
        proof {
            lemma_spec_u32_ok(bytes, self.spec_ptr());
        }
        let count = match self.decode_leb128_u32() {
            Ok(n) => n,
            Err(e) => return Err(e),
        };
        let ghost p0 = self.spec_ptr();
        let mut out: Vec<TableType> = Vec::new();
        let mut i: u32 = 0;
        while i < count
            invariant
                self.spec_bytes() == bytes,
                bytes == old(self).spec_bytes(),
                spec_u32(bytes, old(self).spec_ptr()) == (Ok::<u32, Trap>(count), p0),
                i <= count,
                cursor_ok(bytes, self.spec_ptr()),
                spec_repeat(bytes, p0, i as nat, table_type_item()) == (Ok::<Seq<TableType>, Trap>(out@), self.spec_ptr()),
            decreases count - i,
        {
            let t = match self.decode_table_type() {
                Ok(t) => t,
                Err(e) => {
                    proof {
                        lemma_repeat_error(bytes, p0, i as nat, (count - i) as nat, table_type_item());
                    }
                    return Err(e);
                },
            };
            out.push(t);
            i = i + 1;
        }
        Ok(out)
    }
}

} // verus!
