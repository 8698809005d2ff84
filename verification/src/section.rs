//! A decoded module: what each section gave, and the decoding of a whole
//! module section by section.
use vstd::prelude::*;
use crate::byte::Byte;
use crate::decodable::{
    cursor_ok, lemma_spec_u32_ok, spec_u32, views, AbstractDecodable, Decodable, U32Decodable, U8Iterator,
    leb128_scan, leb128_payload, leb128_max_len, lemma_leb128_scan_done_bound, LebEnd};
use crate::error::{Trap, WasmError, WasmResult};
use crate::function::FunctionType;
use crate::global::GlobalType;
use crate::memory::Limit;
use crate::module::{ExternalInterfaces, ModuleDescriptor};
use crate::sec_code::{code_views, spec_code_section};
use crate::sec_custom::{custom_views, spec_custom_section, spec_export_section, spec_import_section};
use crate::sec_data::{Data, spec_data_section};
use crate::sec_element::{Element, spec_element_section};
use crate::sec_function::{spec_function_section, spec_memory_section};
use crate::sec_global::{global_views, spec_global_section};
use crate::sec_table::{TableType, spec_table_section};
use crate::sec_type::spec_type_section;
use crate::value_type::ValueTypes;

verus! {

/// The ids of the sections of a module.
#[derive(Debug, Clone, Copy, PartialEq, Eq, Structural)]
pub enum SectionCode {
    Custom,
    Type,
    Import,
    Function,
    Table,
    Memory,
    Global,
    Export,
    Start,
    Element,
    Code,
    Data,
}

/// The section that an id byte names, from 0 to 11.
pub open spec fn spec_section_code(code: Option<u8>) -> Option<SectionCode> {
    match code {
        Some(0x0u8) => Some(SectionCode::Custom),
        Some(0x1u8) => Some(SectionCode::Type),
        Some(0x2u8) => Some(SectionCode::Import),
        Some(0x3u8) => Some(SectionCode::Function),
        Some(0x4u8) => Some(SectionCode::Table),
        Some(0x5u8) => Some(SectionCode::Memory),
        Some(0x6u8) => Some(SectionCode::Global),
        Some(0x7u8) => Some(SectionCode::Export),
        Some(0x8u8) => Some(SectionCode::Start),
        Some(0x9u8) => Some(SectionCode::Element),
        Some(0xau8) => Some(SectionCode::Code),
        Some(0xbu8) => Some(SectionCode::Data),
        _ => None,
    }
}

impl SectionCode {
    /// The section that an id byte names; another byte, or none, is an invalid section id.
    pub fn try_from_code(code: Option<u8>) -> (r: Result<SectionCode, Trap>)
        ensures
            match spec_section_code(code) {
                Some(c) => r == Ok::<SectionCode, Trap>(c),
                None => r == Err::<SectionCode, Trap>(Trap::InvalidSectionId),
            },
    {
        match code {
            Some(0x0) => Ok(SectionCode::Custom),
            Some(0x1) => Ok(SectionCode::Type),
            Some(0x2) => Ok(SectionCode::Import),
            Some(0x3) => Ok(SectionCode::Function),
            Some(0x4) => Ok(SectionCode::Table),
            Some(0x5) => Ok(SectionCode::Memory),
            Some(0x6) => Ok(SectionCode::Global),
            Some(0x7) => Ok(SectionCode::Export),
            Some(0x8) => Ok(SectionCode::Start),
            Some(0x9) => Ok(SectionCode::Element),
            Some(0xa) => Ok(SectionCode::Code),
            Some(0xb) => Ok(SectionCode::Data),
            _ => Err(Trap::InvalidSectionId),
        }
    }
}

/// The contents of a decoded module, as plain values.
pub struct SectionView {
    pub function_types: Seq<(Seq<ValueTypes>, Seq<ValueTypes>)>,
    pub functions: Seq<u32>,
    pub exports: Seq<(Option<Seq<char>>, Seq<char>, ModuleDescriptor)>,
    pub codes: Seq<Result<(Seq<u8>, Seq<ValueTypes>), WasmError>>,
    pub datas: Seq<(u32, Seq<u8>, Seq<u8>)>,
    pub limits: Seq<Limit>,
    pub tables: Seq<TableType>,
    pub globals: Seq<(GlobalType, Seq<u8>)>,
    pub elements: Seq<(u32, Seq<u8>, Seq<u32>)>,
    pub customs: Seq<(Seq<char>, Seq<u8>)>,
    pub imports: Seq<(Option<Seq<char>>, Seq<char>, ModuleDescriptor)>,
    pub start: Option<u32>,
}

/// A module with no sections.
pub open spec fn empty_section_view() -> SectionView {
    SectionView {
        function_types: seq![],
        functions: seq![],
        exports: seq![],
        codes: seq![],
        datas: seq![],
        limits: seq![],
        tables: seq![],
        globals: seq![],
        elements: seq![],
        customs: seq![],
        imports: seq![],
        start: None,
    }
}

/// A decoded module: what its sections gave, in the order they came.
pub struct Section {
    function_types: Vec<FunctionType>,
    functions: Vec<u32>,
    exports: ExternalInterfaces,
    codes: Vec<WasmResult<(Vec<u8>, Vec<ValueTypes>)>>,
    datas: Vec<Data>,
    limits: Vec<Limit>,
    tables: Vec<TableType>,
    globals: Vec<(GlobalType, Vec<u8>)>,
    elements: Vec<Element>,
    customs: Vec<(String, Vec<u8>)>,
    imports: ExternalInterfaces,
    start: Option<u32>,
}

impl View for Section {
    type V = SectionView;

    closed spec fn view(&self) -> SectionView {
        SectionView {
            function_types: views(self.function_types@),
            functions: self.functions@,
            exports: self.exports@,
            codes: code_views(self.codes@),
            datas: views(self.datas@),
            limits: self.limits@,
            tables: self.tables@,
            globals: global_views(self.globals@),
            elements: views(self.elements@),
            customs: custom_views(self.customs@),
            imports: self.imports@,
            start: self.start,
        }
    }
}

impl Default for Section {
    fn default() -> (r: Section)
        ensures
            r@ == empty_section_view(),
    {
        Section::new()
    }
}

impl Section {
    /// A module with no sections.
    pub fn new() -> (r: Section)
        ensures
            r@ == empty_section_view(),
    {
        let r = Section {
            function_types: Vec::new(),
            functions: Vec::new(),
            exports: ExternalInterfaces::new(),
            codes: Vec::new(),
            datas: Vec::new(),
            limits: Vec::new(),
            tables: Vec::new(),
            globals: Vec::new(),
            elements: Vec::new(),
            customs: Vec::new(),
            imports: ExternalInterfaces::new(),
            start: None,
        };
        proof {
            assert(views(r.function_types@) =~= seq![]);
            assert(code_views(r.codes@) =~= seq![]);
            assert(views(r.datas@) =~= seq![]);
            assert(global_views(r.globals@) =~= seq![]);
            assert(views(r.elements@) =~= seq![]);
            assert(custom_views(r.customs@) =~= seq![]);
        }
        r
    }

    /// The function types.
    pub fn get_function_types(&self) -> (r: &Vec<FunctionType>)
        ensures
            views(r@) == self@.function_types,
    {
        &self.function_types
    }

    /// The type indices of the functions.
    pub fn get_functions(&self) -> (r: &Vec<u32>)
        ensures
            r@ == self@.functions,
    {
        &self.functions
    }

    /// The decoded functions.
    pub fn get_codes(&self) -> (r: &Vec<WasmResult<(Vec<u8>, Vec<ValueTypes>)>>)
        ensures
            code_views(r@) == self@.codes,
    {
        &self.codes
    }

    /// The data segments.
    pub fn get_datas(&self) -> (r: &Vec<Data>)
        ensures
            views(r@) == self@.datas,
    {
        &self.datas
    }

    /// The memory limits.
    pub fn get_limits(&self) -> (r: &Vec<Limit>)
        ensures
            r@ == self@.limits,
    {
        &self.limits
    }

    /// The table types.
    pub fn get_tables(&self) -> (r: &Vec<TableType>)
        ensures
            r@ == self@.tables,
    {
        &self.tables
    }

    /// The globals.
    pub fn get_globals(&self) -> (r: &Vec<(GlobalType, Vec<u8>)>)
        ensures
            global_views(r@) == self@.globals,
    {
        &self.globals
    }

    /// The element segments.
    pub fn get_elements(&self) -> (r: &Vec<Element>)
        ensures
            views(r@) == self@.elements,
    {
        &self.elements
    }

    /// The exports.
    pub fn get_exports(&self) -> (r: &ExternalInterfaces)
        ensures
            r@ == self@.exports,
    {
        &self.exports
    }

    /// The imports.
    pub fn get_imports(&self) -> (r: &ExternalInterfaces)
        ensures
            r@ == self@.imports,
    {
        &self.imports
    }

    /// The start function.
    pub fn get_start(&self) -> (r: Option<u32>)
        ensures
            r == self@.start,
    {
        self.start
    }

    /// Appends function types.
    pub fn function_types(&mut self, xs: &mut Vec<FunctionType>)
        ensures
            final(self)@ == (SectionView { function_types: old(self)@.function_types + views(old(xs)@), ..old(self)@ }),
            final(xs)@ == Seq::<FunctionType>::empty(),
    {
        let ghost before = self.function_types@;
        self.function_types.append(xs);
        proof {
            assert(views(self.function_types@) =~= views(before) + views(old(xs)@));
        }
    }

    /// Appends type indices of functions.
    pub fn functions(&mut self, xs: &mut Vec<u32>)
        ensures
            final(self)@ == (SectionView { functions: old(self)@.functions + old(xs)@, ..old(self)@ }),
            final(xs)@ == Seq::<u32>::empty(),
    {
        self.functions.append(xs);
    }

    /// Appends decoded functions.
    pub fn codes(&mut self, xs: &mut Vec<WasmResult<(Vec<u8>, Vec<ValueTypes>)>>)
        ensures
            final(self)@ == (SectionView { codes: old(self)@.codes + code_views(old(xs)@), ..old(self)@ }),
            final(xs)@ == Seq::<WasmResult<(Vec<u8>, Vec<ValueTypes>)>>::empty(),
    {
        let ghost before = self.codes@;
        self.codes.append(xs);
        proof {
            assert(code_views(self.codes@) =~= code_views(before) + code_views(old(xs)@));
        }
    }

    /// Appends data segments.
    pub fn datas(&mut self, xs: &mut Vec<Data>)
        ensures
            final(self)@ == (SectionView { datas: old(self)@.datas + views(old(xs)@), ..old(self)@ }),
            final(xs)@ == Seq::<Data>::empty(),
    {
        let ghost before = self.datas@;
        self.datas.append(xs);
        proof {
            assert(views(self.datas@) =~= views(before) + views(old(xs)@));
        }
    }

    /// Appends memory limits.
    pub fn limits(&mut self, xs: &mut Vec<Limit>)
        ensures
            final(self)@ == (SectionView { limits: old(self)@.limits + old(xs)@, ..old(self)@ }),
            final(xs)@ == Seq::<Limit>::empty(),
    {
        self.limits.append(xs);
    }

    /// Appends table types.
    pub fn tables(&mut self, xs: &mut Vec<TableType>)
        ensures
            final(self)@ == (SectionView { tables: old(self)@.tables + old(xs)@, ..old(self)@ }),
            final(xs)@ == Seq::<TableType>::empty(),
    {
        self.tables.append(xs);
    }

    /// Appends globals.
    pub fn globals(&mut self, xs: &mut Vec<(GlobalType, Vec<u8>)>)
        ensures
            final(self)@ == (SectionView { globals: old(self)@.globals + global_views(old(xs)@), ..old(self)@ }),
            final(xs)@ == Seq::<(GlobalType, Vec<u8>)>::empty(),
    {
        let ghost before = self.globals@;
        self.globals.append(xs);
        proof {
            assert(global_views(self.globals@) =~= global_views(before) + global_views(old(xs)@));
        }
    }

    /// Appends element segments.
    pub fn elements(&mut self, xs: &mut Vec<Element>)
        ensures
            final(self)@ == (SectionView { elements: old(self)@.elements + views(old(xs)@), ..old(self)@ }),
            final(xs)@ == Seq::<Element>::empty(),
    {
        let ghost before = self.elements@;
        self.elements.append(xs);
        proof {
            assert(views(self.elements@) =~= views(before) + views(old(xs)@));
        }
    }

    /// Appends custom sections.
    pub fn customs(&mut self, xs: &mut Vec<(String, Vec<u8>)>)
        ensures
            final(self)@ == (SectionView { customs: old(self)@.customs + custom_views(old(xs)@), ..old(self)@ }),
            final(xs)@ == Seq::<(String, Vec<u8>)>::empty(),
    {
        let ghost before = self.customs@;
        self.customs.append(xs);
        proof {
            assert(custom_views(self.customs@) =~= custom_views(before) + custom_views(old(xs)@));
        }
    }

    /// Replaces the imports.
    pub fn imports(&mut self, xs: ExternalInterfaces)
        ensures
            final(self)@ == (SectionView { imports: xs@, ..old(self)@ }),
    {
        self.imports = xs;
    }

    /// Replaces the exports.
    pub fn exports(&mut self, xs: ExternalInterfaces)
        ensures
            final(self)@ == (SectionView { exports: xs@, ..old(self)@ }),
    {
        self.exports = xs;
    }

    /// Sets the start function.
    pub fn start(&mut self, x: u32)
        ensures
            final(self)@ == (SectionView { start: Some(x), ..old(self)@ }),
    {
        self.start = Some(x);
    }
}

/// The module `m` with what the section `sec` of id `code` gives added: the
/// lists of a section are appended, the imports and the exports replaced, the
/// start function set.
#[verifier::opaque]
pub open spec fn spec_add_section(m: SectionView, code: SectionCode, sec: Seq<u8>) -> Result<SectionView, Trap> {
    match code {
        SectionCode::Type => match spec_type_section(sec, 0).0 {
            Ok(v) => Ok(SectionView { function_types: m.function_types + v, ..m }),
            Err(e) => Err(e),
        },
        SectionCode::Function => match spec_function_section(sec, 0).0 {
            Ok(v) => Ok(SectionView { functions: m.functions + v, ..m }),
            Err(e) => Err(e),
        },
        SectionCode::Code => match spec_code_section(sec, 0).0 {
            Ok(v) => Ok(SectionView { codes: m.codes + v, ..m }),
            Err(e) => Err(e),
        },
        SectionCode::Data => match spec_data_section(sec, 0).0 {
            Ok(v) => Ok(SectionView { datas: m.datas + v, ..m }),
            Err(e) => Err(e),
        },
        SectionCode::Memory => match spec_memory_section(sec, 0).0 {
            Ok(v) => Ok(SectionView { limits: m.limits + v, ..m }),
            Err(e) => Err(e),
        },
        SectionCode::Table => match spec_table_section(sec, 0).0 {
            Ok(v) => Ok(SectionView { tables: m.tables + v, ..m }),
            Err(e) => Err(e),
        },
        SectionCode::Global => match spec_global_section(sec, 0).0 {
            Ok(v) => Ok(SectionView { globals: m.globals + v, ..m }),
            Err(e) => Err(e),
        },
        SectionCode::Element => match spec_element_section(sec, 0).0 {
            Ok(v) => Ok(SectionView { elements: m.elements + v, ..m }),
            Err(e) => Err(e),
        },
        SectionCode::Custom => match spec_custom_section(sec, 0).0 {
            Ok(v) => Ok(SectionView { customs: m.customs + v, ..m }),
            Err(e) => Err(e),
        },
        SectionCode::Export => match spec_export_section(sec, 0).0 {
            Ok(v) => Ok(SectionView { exports: v, ..m }),
            Err(e) => Err(e),
        },
        SectionCode::Import => match spec_import_section(sec, 0).0 {
            Ok(v) => Ok(SectionView { imports: v, ..m }),
            Err(e) => Err(e),
        },
        SectionCode::Start => match spec_u32(sec, 0).0 {
            Ok(x) => Ok(SectionView { start: Some(x), ..m }),
            Err(e) => Err(e),
        },
    }
}

/// Decodes the sections from `ptr` on into `m`: each section is an id byte, a
/// size as an unsigned LEB128 integer, and that many bytes, which are decoded
/// on their own. An id of no section is an invalid section id; a size that
/// reaches past the bytes is out of bounds.
pub open spec fn spec_decode_sections(bytes: Seq<u8>, ptr: nat, m: SectionView) -> Result<SectionView, Trap>
    decreases bytes.len() - ptr,
{
    if ptr >= bytes.len() {
        Ok(m)
    } else {
        match spec_section_code(Some(bytes[ptr as int])) {
            None => Err(Trap::InvalidSectionId),
            Some(code) => {
                let (size, p) = spec_u32(bytes, ptr + 1);
                match size {
                    Err(e) => Err(e),
                    Ok(size) => if p + size > bytes.len() {
                        Err(Trap::LengthOutofBounds)
                    } else {
                        match spec_add_section(m, code, bytes.subrange(p as int, p + size)) {
                            Err(e) => Err(e),
                            Ok(m2) => {
                                proof {
                                    lemma_spec_u32_ok(bytes, ptr + 1);
                                }
                                spec_decode_sections(bytes, (p + size) as nat, m2)
                            },
                        }
                    },
                }
            },
        }
    }
}

/// A whole module after its header.
pub open spec fn spec_decode_module_body(bytes: Seq<u8>) -> Result<SectionView, Trap> {
    spec_decode_sections(bytes, 0, empty_section_view())
}

impl Section {
    /// Decodes the bytes of a section of id `code` and adds what they give.
    pub fn add_section(&mut self, code: SectionCode, bytes: Vec<u8>) -> (r: WasmResult<()>)
        requires
            bytes@.len() + 16 < usize::MAX,
        ensures
            match spec_add_section(old(self)@, code, bytes@) {
                Ok(m) => r is Ok && final(self)@ == m,
                Err(e) => r == Err::<(), WasmError>(WasmError::Trap(e)),
            },
    {
        reveal(spec_add_section);
        let mut cursor = Byte::new(bytes);
        match code {
            SectionCode::Type => match cursor.decode_type_section() {
                Ok(mut v) => {
                    self.function_types(&mut v);
                    Ok(())
                },
                Err(e) => Err(e),
            },
            SectionCode::Function => match cursor.decode_function_section() {
                Ok(mut v) => {
                    self.functions(&mut v);
                    Ok(())
                },
                Err(e) => Err(e),
            },
            SectionCode::Code => match cursor.decode_code_section() {
                Ok(mut v) => {
                    self.codes(&mut v);
                    Ok(())
                },
                Err(e) => Err(e),
            },
            SectionCode::Data => match cursor.decode_data_section() {
                Ok(mut v) => {
                    self.datas(&mut v);
                    Ok(())
                },
                Err(e) => Err(e),
            },
            SectionCode::Memory => match cursor.decode_memory_section() {
                Ok(mut v) => {
                    self.limits(&mut v);
                    Ok(())
                },
                Err(e) => Err(e),
            },
            SectionCode::Table => match cursor.decode_table_section() {
                Ok(mut v) => {
                    self.tables(&mut v);
                    Ok(())
                },
                Err(e) => Err(e),
            },
            SectionCode::Global => match cursor.decode_global_section() {
                Ok(mut v) => {
                    self.globals(&mut v);
                    Ok(())
                },
                Err(e) => Err(e),
            },
            SectionCode::Element => match cursor.decode_element_section() {
                Ok(mut v) => {
                    self.elements(&mut v);
                    Ok(())
                },
                Err(e) => Err(e),
            },
            SectionCode::Custom => match cursor.decode_custom_section() {
                Ok(mut v) => {
                    self.customs(&mut v);
                    Ok(())
                },
                Err(e) => Err(e),
            },
            SectionCode::Export => match cursor.decode_export_section() {
                Ok(v) => {
                    self.exports(v);
                    Ok(())
                },
                Err(e) => Err(e),
            },
            SectionCode::Import => match cursor.decode_import_section() {
                Ok(v) => {
                    self.imports(v);
                    Ok(())
                },
                Err(e) => Err(e),
            },
            SectionCode::Start => match cursor.decode_start_section() {
                Ok(x) => {
                    self.start(x);
                    Ok(())
                },
                Err(e) => Err(e),
            },
        }
    }
}

/// Two sequences that agree from `p1` and from `p2` on agree on any range
/// taken at the same distance from those positions.
proof fn lemma_suffix_range(b1: Seq<u8>, p1: nat, b2: Seq<u8>, p2: nat, a: int, c: int)
    requires
        p1 <= b1.len(),
        p2 <= b2.len(),
        b1.subrange(p1 as int, b1.len() as int) == b2.subrange(p2 as int, b2.len() as int),
        0 <= a <= c <= b1.len() - p1,
    ensures
        b1.len() - p1 == b2.len() - p2,
        b1.subrange(p1 + a, p1 + c) == b2.subrange(p2 + a, p2 + c),
{
    let t1 = b1.subrange(p1 as int, b1.len() as int);
    let t2 = b2.subrange(p2 as int, b2.len() as int);
    assert(t1.len() == b1.len() - p1);
    assert(t2.len() == b2.len() - p2);
    assert forall|i: int| 0 <= i < c - a implies #[trigger] b1.subrange(p1 + a, p1 + c)[i] == b2.subrange(p2 + a, p2 + c)[i] by {
        assert(t1[a + i] == b1[p1 + a + i]);
        assert(t2[a + i] == b2[p2 + a + i]);
    }
    assert(b1.subrange(p1 + a, p1 + c) =~= b2.subrange(p2 + a, p2 + c));
}

/// Scanning a LEB128 integer reads only what follows its start.
proof fn lemma_scan_suffix(b1: Seq<u8>, p1: nat, b2: Seq<u8>, p2: nat, k: nat, max: nat)
    requires
        p1 <= b1.len(),
        p2 <= b2.len(),
        b1.subrange(p1 as int, b1.len() as int) == b2.subrange(p2 as int, b2.len() as int),
    ensures
        leb128_scan(b1, p1, k, max) == leb128_scan(b2, p2, k, max),
    decreases max - k,
{
    lemma_suffix_range(b1, p1, b2, p2, 0, 0);
    if p1 + k < b1.len() {
        lemma_suffix_range(b1, p1, b2, p2, k as int, (k + 1) as int);
        assert(b1[(p1 + k) as int] == b1.subrange((p1 + k) as int, (p1 + k + 1) as int)[0]);
        assert(b2[(p2 + k) as int] == b2.subrange((p2 + k) as int, (p2 + k + 1) as int)[0]);
        if k < max {
            lemma_scan_suffix(b1, p1, b2, p2, k + 1, max);
        }
    }
}

/// The payload of a LEB128 integer reads only what follows its start.
proof fn lemma_payload_suffix(b1: Seq<u8>, p1: nat, b2: Seq<u8>, p2: nat, n: nat)
    requires
        p1 + n <= b1.len(),
        p2 <= b2.len(),
        b1.subrange(p1 as int, b1.len() as int) == b2.subrange(p2 as int, b2.len() as int),
    ensures
        leb128_payload(b1, p1, n) == leb128_payload(b2, p2, n),
    decreases n,
{
    if n > 0 {
        lemma_payload_suffix(b1, p1, b2, p2, (n - 1) as nat);
        lemma_suffix_range(b1, p1, b2, p2, n - 1, n as int);
        assert(b1[(p1 + n - 1) as int] == b1.subrange(p1 + n - 1, (p1 + n) as int)[0]);
        assert(b2[(p2 + n - 1) as int] == b2.subrange(p2 + n - 1, (p2 + n) as int)[0]);
    }
}

/// Reading a 32-bit LEB128 integer reads only what follows its start.
proof fn lemma_u32_suffix(b1: Seq<u8>, p1: nat, b2: Seq<u8>, p2: nat)
    requires
        p1 <= b1.len(),
        p2 <= b2.len(),
        b1.subrange(p1 as int, b1.len() as int) == b2.subrange(p2 as int, b2.len() as int),
    ensures
        spec_u32(b1, p1).0 == spec_u32(b2, p2).0,
        spec_u32(b1, p1).1 - p1 == spec_u32(b2, p2).1 - p2,
{
    let max = leb128_max_len(32);
    lemma_scan_suffix(b1, p1, b2, p2, 0, max);
    lemma_leb128_scan_done_bound(b1, p1, 0, max);
    if let LebEnd::Done(n) = leb128_scan(b1, p1, 0, max) {
        lemma_payload_suffix(b1, p1, b2, p2, n);
    }
}

/// Decoding the sections that follow a position reads only what follows it.
#[verifier::rlimit(40)]
proof fn lemma_sections_suffix(b1: Seq<u8>, p1: nat, b2: Seq<u8>, p2: nat, m: SectionView)
    requires
        p1 <= b1.len(),
        p2 <= b2.len(),
        b1.subrange(p1 as int, b1.len() as int) == b2.subrange(p2 as int, b2.len() as int),
    ensures
        spec_decode_sections(b1, p1, m) == spec_decode_sections(b2, p2, m),
    decreases b1.len() - p1,
{
    lemma_suffix_range(b1, p1, b2, p2, 0, 0);
    if p1 < b1.len() {
        lemma_suffix_range(b1, p1, b2, p2, 0, 1);
        assert(b1[p1 as int] == b1.subrange(p1 as int, (p1 + 1) as int)[0]);
        assert(b2[p2 as int] == b2.subrange(p2 as int, (p2 + 1) as int)[0]);
        let c = spec_section_code(Some(b1[p1 as int]));
        assert(c == spec_section_code(Some(b2[p2 as int])));
        if c is Some {
            lemma_suffix_range(b1, p1, b2, p2, 1, b1.len() - p1);
            lemma_u32_suffix(b1, p1 + 1, b2, p2 + 1);
            lemma_spec_u32_ok(b1, p1 + 1);
            lemma_spec_u32_ok(b2, p2 + 1);
            let (size, q1) = spec_u32(b1, p1 + 1);
            let q2 = spec_u32(b2, p2 + 1).1;
            if size is Ok && q1 + size->Ok_0 <= b1.len() {
                let n = size->Ok_0;
                lemma_suffix_range(b1, p1, b2, p2, q1 - p1, q1 + n - p1);
                let sec = b1.subrange(q1 as int, q1 + n);
                assert(sec == b2.subrange(q2 as int, q2 + n));
                let added = spec_add_section(m, c->Some_0, sec);
                if added is Ok {
                    lemma_suffix_range(b1, p1, b2, p2, q1 + n - p1, b1.len() - p1);
                    lemma_sections_suffix(b1, (q1 + n) as nat, b2, (q2 + n) as nat, added->Ok_0);
                    assert(spec_decode_sections(b1, p1, m) == spec_decode_sections(b1, (q1 + n) as nat, added->Ok_0));
                    assert(spec_decode_sections(b2, p2, m) == spec_decode_sections(b2, (q2 + n) as nat, added->Ok_0));
                }
            }
        }
    }
}

impl Byte {
    /// Reads the size of a section, then takes that many bytes out of the
    /// buffer: they are handed back, the bytes after them close up, and the
    /// position stays where the section began. A size that reaches past the
    /// end is out of bounds, and the buffer is left as it was.
    pub fn decode_section(&mut self) -> (r: WasmResult<Vec<u8>>)
        requires
            cursor_ok(old(self).spec_bytes(), old(self).spec_ptr()),
        ensures
            ({
                let bytes = old(self).spec_bytes();
                let (size, p) = spec_u32(bytes, old(self).spec_ptr());
                match size {
                    Err(e) => r == Err::<Vec<u8>, WasmError>(WasmError::Trap(e)) && final(self).spec_bytes() == bytes,
                    Ok(size) => if p + size > bytes.len() {
                        r == Err::<Vec<u8>, WasmError>(WasmError::Trap(Trap::LengthOutofBounds)) && final(self).spec_bytes() == bytes
                            && final(self).spec_ptr() == p
                    } else {
                        &&& r matches Ok(v) && v@ == bytes.subrange(p as int, p + size)
                        &&& final(self).spec_bytes() == bytes.subrange(0, p as int) + bytes.subrange(p + size, bytes.len() as int)
                        &&& final(self).spec_ptr() == p
                    },
                }
            }),
    {
        let ghost bytes = self.spec_bytes();
        proof {
            lemma_spec_u32_ok(bytes, self.spec_ptr());
        }
        let bin_size_of_section = match self.decode_leb128_u32() {
            Ok(n) => n,
            Err(e) => return Err(e),
        };
        let start = self.byte_ptr();
        let len = self.bytes().len();
        if bin_size_of_section as usize > len - start {
            return Err(WasmError::Trap(Trap::LengthOutofBounds));
        }
        let end = start + bin_size_of_section as usize;
        Ok(self.drain(start, end))
    }
}

impl Decodable for Byte {
    type Item = Section;

    open spec fn decode_ready(&self) -> bool {
        cursor_ok(self.spec_bytes(), self.spec_ptr())
    }

    open spec fn decodes_to(&self, r: WasmResult<Section>) -> bool {
        match spec_decode_sections(self.spec_bytes(), self.spec_ptr(), empty_section_view()) {
            Ok(m) => r matches Ok(x) && x@ == m,
            Err(e) => r == Err::<Section, WasmError>(WasmError::Trap(e)),
        }
    }

    /// Decodes the sections that follow, one after another, into a module.
    fn decode(&mut self) -> (r: WasmResult<Section>) {
        let ghost bytes = self.spec_bytes();
        let ghost start = self.spec_ptr();
        let mut section = Section::new();
        while self.has_next()
            invariant
                bytes == old(self).spec_bytes(),
                start == old(self).spec_ptr(),
                cursor_ok(self.spec_bytes(), self.spec_ptr()),
                spec_decode_sections(bytes, start, empty_section_view()) == spec_decode_sections(
                    self.spec_bytes(),
                    self.spec_ptr(),
                    section@,
                ),
            decreases self.spec_bytes().len() - self.spec_ptr(),
        {
            let ghost ptr = self.spec_ptr();
            let ghost now = self.spec_bytes();
            let code = match SectionCode::try_from_code(self.next()) {
                Ok(c) => c,
                Err(e) => return Err(WasmError::Trap(e)),
            };
            proof {
                lemma_spec_u32_ok(now, ptr + 1);
            }
            let section_bytes = match self.decode_section() {
                Ok(v) => v,
                Err(e) => return Err(e),
            };
            proof {
                let q = self.spec_ptr();
                let size = section_bytes@.len();
                assert(self.spec_bytes().subrange(q as int, self.spec_bytes().len() as int) =~= now.subrange(
                    (q + size) as int,
                    now.len() as int,
                ));
                assert forall|m2: SectionView| spec_decode_sections(self.spec_bytes(), q, m2) == spec_decode_sections(now, q + size, m2) by {
                    lemma_sections_suffix(self.spec_bytes(), q, now, (q + size) as nat, m2);
                }
            }
            match section.add_section(code, section_bytes) {
                Ok(()) => {},
                Err(e) => return Err(e),
            }
        }
        Ok(section)
    }
}

} // verus!
