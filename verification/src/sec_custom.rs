//! Custom sections, and the export and import sections.
use vstd::prelude::*;
use crate::byte::Byte;
use crate::decodable::{
    byte_at, cursor_ok, lemma_limit_ok, lemma_name_ok, lemma_repeat_error, lemma_spec_u32_ok,
    spec_decode_limit, spec_decode_name, spec_repeat, spec_u32, spec_value_type_at,
    AbstractDecodable, LimitDecodable, NameDecodable, U32Decodable, U8Iterator,
};
use crate::error::{Trap, WasmError, WasmResult};
use crate::global::{GlobalType, spec_global_type};
use crate::indice::Indice;
use crate::module::{
    ExportDescriptor, ExternalInterface, ExternalInterfaces, ImportDescriptor, ModuleDescriptor,
    ModuleDescriptorKind, spec_descriptor_kind, spec_export_descriptor,
};
use crate::sec_table::{spec_table_type};

verus! {

/// A custom section: a name, then every byte that is left.
pub open spec fn spec_custom_section(bytes: Seq<u8>, ptr: nat) -> (Result<Seq<(Seq<char>, Seq<u8>)>, Trap>, nat) {
    let (name, p) = spec_decode_name(bytes, ptr);
    match name {
        Err(e) => (Err(e), p),
        Ok(name) => (Ok(seq![(name, bytes.subrange(p as int, bytes.len() as int))]), bytes.len() + 1),
    }
}

/// The view of a decoded custom section.
pub open spec fn custom_views(s: Seq<(String, Vec<u8>)>) -> Seq<(Seq<char>, Seq<u8>)> {
    s.map_values(|c: (String, Vec<u8>)| (c.0@, c.1@))
}

/// The view of an interface that is built from its parts.
pub open spec fn interface_view(module_name: Option<Seq<char>>, name: Seq<char>, d: ModuleDescriptor) -> (
    Option<Seq<char>>,
    Seq<char>,
    ModuleDescriptor,
) {
    (module_name, name, d)
}

/// An export: its name, a kind byte and an index. An unknown kind is `Unknown`,
/// found after the index is read.
pub open spec fn spec_export(bytes: Seq<u8>, ptr: nat) -> (
    Result<(Option<Seq<char>>, Seq<char>, ModuleDescriptor), Trap>,
    nat,
) {
    let (name, p1) = spec_decode_name(bytes, ptr);
    match name {
        Err(e) => (Err(e), p1),
        Ok(name) => {
            let kind = byte_at(bytes, p1);
            let (idx, p2) = spec_u32(bytes, p1 + 1);
            match idx {
                Err(e) => (Err(e), p2),
                Ok(idx) => match spec_export_descriptor(kind, idx) {
                    None => (Err(Trap::Unknown), p2),
                    Some(d) => (Ok(interface_view(None, name, ModuleDescriptor::ExportDescriptor(d))), p2),
                },
            }
        },
    }
}

/// Reading exports.
pub open spec fn export_item() -> spec_fn(Seq<u8>, nat) -> (
    Result<(Option<Seq<char>>, Seq<char>, ModuleDescriptor), Trap>,
    nat,
) {
    |b: Seq<u8>, p: nat| spec_export(b, p)
}

/// The export section: a count, then that many exports.
pub open spec fn spec_export_section(bytes: Seq<u8>, ptr: nat) -> (
    Result<Seq<(Option<Seq<char>>, Seq<char>, ModuleDescriptor)>, Trap>,
    nat,
) {
    let (n, p) = spec_u32(bytes, ptr);
    match n {
        Err(e) => (Err(e), p),
        Ok(n) => spec_repeat(bytes, p, n as nat, export_item()),
    }
}

/// What an import of a given kind brings in, read at `ptr`: a type index for
/// a function, a table type, limits for a memory, a value type and a
/// mutability byte for a global.
pub open spec fn spec_import_descriptor(bytes: Seq<u8>, ptr: nat, kind: ModuleDescriptorKind) -> (
    Result<ImportDescriptor, Trap>,
    nat,
) {
    match kind {
        ModuleDescriptorKind::Function => {
            let (idx, p) = spec_u32(bytes, ptr);
            match idx {
                Err(e) => (Err(e), p),
                Ok(idx) => (Ok(ImportDescriptor::Function(Indice(idx))), p),
            }
        },
        ModuleDescriptorKind::Table => {
            let (t, p) = spec_table_type(bytes, ptr);
            match t {
                Err(e) => (Err(e), p),
                Ok(t) => (Ok(ImportDescriptor::Table(t)), p),
            }
        },
        ModuleDescriptorKind::Memory => {
            let (l, p) = spec_decode_limit(bytes, ptr);
            match l {
                Err(e) => (Err(e), p),
                Ok(l) => (Ok(ImportDescriptor::Memory(l)), p),
            }
        },
        ModuleDescriptorKind::Global => {
            let (vt, p) = spec_value_type_at(bytes, ptr);
            match vt {
                Err(e) => (Err(e), p),
                Ok(vt) => match spec_global_type(byte_at(bytes, p), vt) {
                    Err(e) => (Err(e), p + 1),
                    Ok(g) => (Ok(ImportDescriptor::Global(g)), p + 1),
                },
            }
        },
    }
}

/// An import: the module name, the name, a kind byte, then what the import
/// brings in. An unknown kind is `Unknown`.
#[verifier::opaque]
pub open spec fn spec_import(bytes: Seq<u8>, ptr: nat) -> (
    Result<(Option<Seq<char>>, Seq<char>, ModuleDescriptor), Trap>,
    nat,
) {
    let (module_name, p1) = spec_decode_name(bytes, ptr);
    match module_name {
        Err(e) => (Err(e), p1),
        Ok(module_name) => {
            let (name, p2) = spec_decode_name(bytes, p1);
            match name {
                Err(e) => (Err(e), p2),
                Ok(name) => match spec_descriptor_kind(byte_at(bytes, p2)) {
                    None => (Err(Trap::Unknown), p2 + 1),
                    Some(kind) => {
                        let (d, p3) = spec_import_descriptor(bytes, p2 + 1, kind);
                        match d {
                            Err(e) => (Err(e), p3),
                            Ok(d) => (Ok(interface_view(Some(module_name), name, ModuleDescriptor::ImportDescriptor(d))), p3),
                        }
                    },
                },
            }
        },
    }
}

/// Reading imports.
pub open spec fn import_item() -> spec_fn(Seq<u8>, nat) -> (
    Result<(Option<Seq<char>>, Seq<char>, ModuleDescriptor), Trap>,
    nat,
) {
    |b: Seq<u8>, p: nat| spec_import(b, p)
}

/// The import section: a count, then that many imports.
pub open spec fn spec_import_section(bytes: Seq<u8>, ptr: nat) -> (
    Result<Seq<(Option<Seq<char>>, Seq<char>, ModuleDescriptor)>, Trap>,
    nat,
) {
    let (n, p) = spec_u32(bytes, ptr);
    match n {
        Err(e) => (Err(e), p),
        Ok(n) => spec_repeat(bytes, p, n as nat, import_item()),
    }
}

impl Byte {
    /// Decodes the bytes of a custom section.
    pub fn decode_custom_section(&mut self) -> (r: WasmResult<Vec<(String, Vec<u8>)>>)
        requires
            cursor_ok(old(self).spec_bytes(), old(self).spec_ptr()),
        ensures
            final(self).spec_bytes() == old(self).spec_bytes(),
            final(self).spec_ptr() == spec_custom_section(old(self).spec_bytes(), old(self).spec_ptr()).1,
            match spec_custom_section(old(self).spec_bytes(), old(self).spec_ptr()).0 {
                Ok(v) => r matches Ok(x) && custom_views(x@) == v,
                Err(e) => r == Err::<Vec<(String, Vec<u8>)>, WasmError>(WasmError::Trap(e)),
            },
    {
        let ghost bytes = self.spec_bytes();
        proof {
            lemma_name_ok(bytes, self.spec_ptr());
        }
        let key = match self.decode_name() {
            Ok(k) => k,
            Err(e) => return Err(e),
        };
        let ghost p = self.spec_ptr();
        let mut codes: Vec<u8> = Vec::new();
        loop
            invariant_except_break
                p <= self.spec_ptr() <= bytes.len(),
                codes@ == bytes.subrange(p as int, self.spec_ptr() as int),
            invariant
                self.spec_bytes() == bytes,
                bytes == old(self).spec_bytes(),
                cursor_ok(bytes, p),
            ensures
                self.spec_bytes() == bytes,
                self.spec_ptr() == bytes.len() + 1,
                codes@ == bytes.subrange(p as int, bytes.len() as int),
            decreases bytes.len() - self.spec_ptr(),
        {
            let ghost q = self.spec_ptr();
            match self.next() {
                Some(code) => {
                    codes.push(code);
                    proof {
                        assert(bytes.subrange(p as int, q + 1int) == bytes.subrange(p as int, q as int).push(code));
                    }
                },
                None => break,
            }
        }
        let mut out: Vec<(String, Vec<u8>)> = Vec::new();
        out.push((key, codes));
        proof {
            assert(custom_views(out@) =~= seq![(key@, codes@)]);
        }
        Ok(out)
    }

    /// Reads one export.
    pub fn decode_export(&mut self) -> (r: WasmResult<ExternalInterface>)
        requires
            cursor_ok(old(self).spec_bytes(), old(self).spec_ptr()),
        ensures
            final(self).spec_bytes() == old(self).spec_bytes(),
            final(self).spec_ptr() == spec_export(old(self).spec_bytes(), old(self).spec_ptr()).1,
            match spec_export(old(self).spec_bytes(), old(self).spec_ptr()).0 {
                Ok(v) => r matches Ok(x) && x@ == v,
                Err(e) => r == Err::<ExternalInterface, WasmError>(WasmError::Trap(e)),
            },
            r is Ok ==> cursor_ok(final(self).spec_bytes(), final(self).spec_ptr()),
    {
        let ghost bytes = self.spec_bytes();
        proof {
            lemma_name_ok(bytes, self.spec_ptr());
        }
        let name = match self.decode_name() {
            Ok(n) => n,
            Err(e) => return Err(e),
        };
        let kind = self.next();
        proof {
            lemma_spec_u32_ok(bytes, self.spec_ptr());
        }
        let idx = match self.decode_leb128_u32() {
            Ok(i) => i,
            Err(e) => return Err(e),
        };
        let export_descriptor = match ExportDescriptor::from_code(kind, idx) {
            Ok(d) => d,
            Err(e) => return Err(WasmError::Trap(e)),
        };
        Ok(ExternalInterface::new(None, name, ModuleDescriptor::ExportDescriptor(export_descriptor)))
    }

    /// Decodes the bytes of an export section.
    pub fn decode_export_section(&mut self) -> (r: WasmResult<ExternalInterfaces>)
        requires
            cursor_ok(old(self).spec_bytes(), old(self).spec_ptr()),
        ensures
            final(self).spec_bytes() == old(self).spec_bytes(),
            final(self).spec_ptr() == spec_export_section(old(self).spec_bytes(), old(self).spec_ptr()).1,
            match spec_export_section(old(self).spec_bytes(), old(self).spec_ptr()).0 {
                Ok(v) => r matches Ok(x) && x@ == v,
                Err(e) => r == Err::<ExternalInterfaces, WasmError>(WasmError::Trap(e)),
            },
    {
        let ghost bytes = self.spec_bytes();
        proof {
            lemma_spec_u32_ok(bytes, self.spec_ptr());
        }
        let count = match self.decode_leb128_u32() {
            Ok(n) => n,
            Err(e) => return Err(e),
        };
        let ghost p0 = self.spec_ptr();
        let mut exports = ExternalInterfaces::new();
        let mut i: u32 = 0;
        while i < count
            invariant
                self.spec_bytes() == bytes,
                bytes == old(self).spec_bytes(),
                spec_u32(bytes, old(self).spec_ptr()) == (Ok::<u32, Trap>(count), p0),
                i <= count,
                cursor_ok(bytes, self.spec_ptr()),
                spec_repeat(bytes, p0, i as nat, export_item()) == (Ok::<Seq<(Option<Seq<char>>, Seq<char>, ModuleDescriptor)>, Trap>(exports@), self.spec_ptr()),
            decreases count - i,
        {
            let x = match self.decode_export() {
                Ok(x) => x,
                Err(e) => {
                    proof {
                        lemma_repeat_error(bytes, p0, i as nat, (count - i) as nat, export_item());
                    }
                    return Err(e);
                },
            };
            exports.push(x);
            i = i + 1;
        }
        Ok(exports)
    }

    /// Reads what an import of `kind` brings in.
    pub fn decode_import_descriptor(&mut self, kind: ModuleDescriptorKind) -> (r: WasmResult<ImportDescriptor>)
        requires
            cursor_ok(old(self).spec_bytes(), old(self).spec_ptr()),
        ensures
            final(self).spec_bytes() == old(self).spec_bytes(),
            final(self).spec_ptr() == spec_import_descriptor(old(self).spec_bytes(), old(self).spec_ptr(), kind).1,
            r == crate::error::trap_result(spec_import_descriptor(old(self).spec_bytes(), old(self).spec_ptr(), kind).0),
            r is Ok ==> cursor_ok(final(self).spec_bytes(), final(self).spec_ptr()),
    {
        let ghost bytes = self.spec_bytes();
        proof {
            lemma_spec_u32_ok(bytes, self.spec_ptr());
            lemma_limit_ok(bytes, self.spec_ptr());
        }
        match kind {
            ModuleDescriptorKind::Function => match self.decode_leb128_u32() {
                Ok(idx) => Ok(ImportDescriptor::Function(Indice(idx))),
                Err(e) => Err(e),
            },
            ModuleDescriptorKind::Table => match self.decode_table_type() {
                Ok(t) => Ok(ImportDescriptor::Table(t)),
                Err(e) => Err(e),
            },
            ModuleDescriptorKind::Memory => match self.decode_limit() {
                Ok(l) => Ok(ImportDescriptor::Memory(l)),
                Err(e) => Err(e),
            },
            ModuleDescriptorKind::Global => {
                let value_type = match self.decode_value_type() {
                    Ok(t) => t,
                    Err(e) => return Err(e),
                };
                match GlobalType::new(self.next(), value_type) {
                    Ok(g) => Ok(ImportDescriptor::Global(g)),
                    Err(e) => Err(WasmError::Trap(e)),
                }
            },
        }
    }

    /// Reads one import.
    pub fn decode_import(&mut self) -> (r: WasmResult<ExternalInterface>)
        requires
            cursor_ok(old(self).spec_bytes(), old(self).spec_ptr()),
        ensures
            final(self).spec_bytes() == old(self).spec_bytes(),
            final(self).spec_ptr() == spec_import(old(self).spec_bytes(), old(self).spec_ptr()).1,
            match spec_import(old(self).spec_bytes(), old(self).spec_ptr()).0 {
                Ok(v) => r matches Ok(x) && x@ == v,
                Err(e) => r == Err::<ExternalInterface, WasmError>(WasmError::Trap(e)),
            },
            r is Ok ==> cursor_ok(final(self).spec_bytes(), final(self).spec_ptr()),
    {
        let ghost bytes = self.spec_bytes();
        proof {
            reveal(spec_import);
            lemma_name_ok(bytes, self.spec_ptr());
        }
        let module_name = match self.decode_name() {
            Ok(n) => n,
            Err(e) => return Err(e),
        };
        proof {
            lemma_name_ok(bytes, self.spec_ptr());
        }
        let name = match self.decode_name() {
            Ok(n) => n,
            Err(e) => return Err(e),
        };
        let kind = match ModuleDescriptorKind::from_code(self.next()) {
            Ok(k) => k,
            Err(e) => return Err(WasmError::Trap(e)),
        };
        let import_descriptor = match self.decode_import_descriptor(kind) {
            Ok(d) => d,
            Err(e) => return Err(e),
        };
        Ok(ExternalInterface::new(Some(module_name), name, ModuleDescriptor::ImportDescriptor(import_descriptor)))
    }

    /// Decodes the bytes of an import section.
    pub fn decode_import_section(&mut self) -> (r: WasmResult<ExternalInterfaces>)
        requires
            cursor_ok(old(self).spec_bytes(), old(self).spec_ptr()),
        ensures
            final(self).spec_bytes() == old(self).spec_bytes(),
            final(self).spec_ptr() == spec_import_section(old(self).spec_bytes(), old(self).spec_ptr()).1,
            match spec_import_section(old(self).spec_bytes(), old(self).spec_ptr()).0 {
                Ok(v) => r matches Ok(x) && x@ == v,
                Err(e) => r == Err::<ExternalInterfaces, WasmError>(WasmError::Trap(e)),
            },
    {
        let ghost bytes = self.spec_bytes();
        proof {
            lemma_spec_u32_ok(bytes, self.spec_ptr());
        }
        let count = match self.decode_leb128_u32() {
            Ok(n) => n,
            Err(e) => return Err(e),
        };
        let ghost p0 = self.spec_ptr();
        let mut imports = ExternalInterfaces::new();
        let mut i: u32 = 0;
        while i < count
            invariant
                self.spec_bytes() == bytes,
                bytes == old(self).spec_bytes(),
                spec_u32(bytes, old(self).spec_ptr()) == (Ok::<u32, Trap>(count), p0),
                i <= count,
                cursor_ok(bytes, self.spec_ptr()),
                spec_repeat(bytes, p0, i as nat, import_item()) == (Ok::<Seq<(Option<Seq<char>>, Seq<char>, ModuleDescriptor)>, Trap>(imports@), self.spec_ptr()),
            decreases count - i,
        {
            let x = match self.decode_import() {
                Ok(x) => x,
                Err(e) => {
                    proof {
                        lemma_repeat_error(bytes, p0, i as nat, (count - i) as nat, import_item());
                    }
                    return Err(e);
                },
            };
            imports.push(x);
            i = i + 1;
        }
        Ok(imports)
    }
}

} // verus!
