//! The type section: the function types of a module.
use vstd::prelude::*;
use crate::byte::Byte;
use crate::decodable::{
    byte_at, cursor_ok, decoded_as, lemma_repeat_error, lemma_spec_u32_ok, lemma_views_push,
    spec_repeat, spec_u32, spec_value_type_at, value_type_item, views, AbstractDecodable,
    U32Decodable, U8Iterator,
};
use crate::error::{Trap, WasmError, WasmResult};
use crate::function::FunctionType;
use crate::value_type::ValueTypes;

verus! {

/// The byte that introduces a function type.
pub const TYPE_FUNCTION: u8 = 0x60;

/// A function type: the byte 0x60, then the parameter types and the result
/// types, each as a count and one byte per type.
pub open spec fn spec_function_type(bytes: Seq<u8>, ptr: nat) -> (
    Result<(Seq<ValueTypes>, Seq<ValueTypes>), Trap>,
    nat,
) {
    match byte_at(bytes, ptr) {
        None => (Err(Trap::UnexpectedEnd), ptr + 1),
        Some(form) => if form != TYPE_FUNCTION {
            (Err(Trap::Unknown), ptr + 1)
        } else {
            let (n, p1) = spec_u32(bytes, ptr + 1);
            match n {
                Err(e) => (Err(e), p1),
                Ok(n) => {
                    let (params, p2) = spec_repeat(bytes, p1, n as nat, value_type_item());
                    match params {
                        Err(e) => (Err(e), p2),
                        Ok(params) => {
                            let (m, p3) = spec_u32(bytes, p2);
                            match m {
                                Err(e) => (Err(e), p3),
                                Ok(m) => {
                                    let (rets, p4) = spec_repeat(bytes, p3, m as nat, value_type_item());
                                    match rets {
                                        Err(e) => (Err(e), p4),
                                        Ok(rets) => (Ok((params, rets)), p4),
                                    }
                                },
                            }
                        },
                    }
                },
            }
        },
    }
}

/// Reading function types.
pub open spec fn function_type_item() -> spec_fn(Seq<u8>, nat) -> (
    Result<(Seq<ValueTypes>, Seq<ValueTypes>), Trap>,
    nat,
) {
    |b: Seq<u8>, p: nat| spec_function_type(b, p)
}

/// The type section: a count, then that many function types.
pub open spec fn spec_type_section(bytes: Seq<u8>, ptr: nat) -> (
    Result<Seq<(Seq<ValueTypes>, Seq<ValueTypes>)>, Trap>,
    nat,
) {
    let (n, p) = spec_u32(bytes, ptr);
    match n {
        Err(e) => (Err(e), p),
        Ok(n) => spec_repeat(bytes, p, n as nat, function_type_item()),
    }
}

impl Byte {
    /// Reads one value type.
    pub fn decode_value_type(&mut self) -> (r: WasmResult<ValueTypes>)
        requires
            cursor_ok(old(self).spec_bytes(), old(self).spec_ptr()),
        ensures
            final(self).spec_bytes() == old(self).spec_bytes(),
            final(self).spec_ptr() == spec_value_type_at(old(self).spec_bytes(), old(self).spec_ptr()).1,
            r == crate::error::trap_result(spec_value_type_at(old(self).spec_bytes(), old(self).spec_ptr()).0),
    {
        match self.next() {
            None => Err(WasmError::Trap(Trap::UnexpectedEnd)),
            Some(c) => match ValueTypes::try_from_code(c) {
                Some(t) => Ok(t),
                None => Err(WasmError::Trap(Trap::Unknown)),
            },
        }
    }

    /// Reads `n` value types.
    pub fn decode_value_types(&mut self, n: u32) -> (r: WasmResult<Vec<ValueTypes>>)
        requires
            cursor_ok(old(self).spec_bytes(), old(self).spec_ptr()),
        ensures
            final(self).spec_bytes() == old(self).spec_bytes(),
            final(self).spec_ptr() == spec_repeat(old(self).spec_bytes(), old(self).spec_ptr(), n as nat, value_type_item()).1,
            decoded_as(r, spec_repeat(old(self).spec_bytes(), old(self).spec_ptr(), n as nat, value_type_item()).0),
            r is Ok ==> cursor_ok(final(self).spec_bytes(), final(self).spec_ptr()),
    {
        let ghost bytes = self.spec_bytes();
        let ghost p0 = self.spec_ptr();
        let mut out: Vec<ValueTypes> = Vec::new();
        let mut i: u32 = 0;
        while i < n
            invariant
                self.spec_bytes() == bytes,
                bytes == old(self).spec_bytes(),
                p0 == old(self).spec_ptr(),
                i <= n,
                cursor_ok(bytes, self.spec_ptr()),
                spec_repeat(bytes, p0, i as nat, value_type_item()) == (Ok::<Seq<ValueTypes>, Trap>(out@), self.spec_ptr()),
            decreases n - i,
        {
            let t = match self.decode_value_type() {
                Ok(t) => t,
                Err(e) => {
                    proof {
                        lemma_repeat_error(bytes, p0, i as nat, (n - i) as nat, value_type_item());
                    }
                    return Err(e);
                },
            };
            out.push(t);
            i = i + 1;
        }
        Ok(out)
    }

    /// Reads one function type.
    pub fn decode_function_type(&mut self) -> (r: WasmResult<FunctionType>)
        requires
            cursor_ok(old(self).spec_bytes(), old(self).spec_ptr()),
        ensures
            final(self).spec_bytes() == old(self).spec_bytes(),
            final(self).spec_ptr() == spec_function_type(old(self).spec_bytes(), old(self).spec_ptr()).1,
            decoded_as(r, spec_function_type(old(self).spec_bytes(), old(self).spec_ptr()).0),
            r is Ok ==> cursor_ok(final(self).spec_bytes(), final(self).spec_ptr()),
    {
        let ghost bytes = self.spec_bytes();
        match self.next() {
            None => return Err(WasmError::Trap(Trap::UnexpectedEnd)),
            Some(form) => if form != TYPE_FUNCTION {
                return Err(WasmError::Trap(Trap::Unknown));
            },
        }
        proof {
            lemma_spec_u32_ok(bytes, self.spec_ptr());
        }
        let size_of_arity = match self.decode_leb128_u32() {
            Ok(n) => n,
            Err(e) => return Err(e),
        };
        let parameters = match self.decode_value_types(size_of_arity) {
            Ok(v) => v,
            Err(e) => return Err(e),
        };
        proof {
            lemma_spec_u32_ok(bytes, self.spec_ptr());
        }
        let size_of_result = match self.decode_leb128_u32() {
            Ok(n) => n,
            Err(e) => return Err(e),
        };
        let results = match self.decode_value_types(size_of_result) {
            Ok(v) => v,
            Err(e) => return Err(e),
        };
        Ok(FunctionType::new(parameters, results))
    }

    /// Decodes the bytes of a type section.
    pub fn decode_type_section(&mut self) -> (r: WasmResult<Vec<FunctionType>>)
        requires
            cursor_ok(old(self).spec_bytes(), old(self).spec_ptr()),
        ensures
            final(self).spec_bytes() == old(self).spec_bytes(),
            final(self).spec_ptr() == spec_type_section(old(self).spec_bytes(), old(self).spec_ptr()).1,
            match spec_type_section(old(self).spec_bytes(), old(self).spec_ptr()).0 {
                Ok(v) => r matches Ok(x) && views(x@) == v,
                Err(e) => r == Err::<Vec<FunctionType>, WasmError>(WasmError::Trap(e)),
            },
    {
        let ghost bytes = self.spec_bytes();
        proof {
            lemma_spec_u32_ok(bytes, self.spec_ptr());
        }
        let count_of_type = match self.decode_leb128_u32() {
            Ok(n) => n,
            Err(e) => return Err(e),
        };
        let ghost p0 = self.spec_ptr();
        let mut out: Vec<FunctionType> = Vec::new();
        proof {
            assert(views(out@) =~= seq![]);
        }
        let mut i: u32 = 0;
        while i < count_of_type
            invariant
                self.spec_bytes() == bytes,
                bytes == old(self).spec_bytes(),
                spec_u32(bytes, old(self).spec_ptr()) == (Ok::<u32, Trap>(count_of_type), p0),
                i <= count_of_type,
                cursor_ok(bytes, self.spec_ptr()),
                spec_repeat(bytes, p0, i as nat, function_type_item()) == (Ok::<Seq<(Seq<ValueTypes>, Seq<ValueTypes>)>, Trap>(views(out@)), self.spec_ptr()),
            decreases count_of_type - i,
        {
            let f = match self.decode_function_type() {
                Ok(f) => f,
                Err(e) => {
                    proof {
                        lemma_repeat_error(bytes, p0, i as nat, (count_of_type - i) as nat, function_type_item());
                    }
                    return Err(e);
                },
            };
            proof {
                lemma_views_push(out@, f);
            }
            out.push(f);
            i = i + 1;
        }
        Ok(out)
    }
}

} // verus!
