//! Instantiation: from a decoded module, and the modules registered for it
//! to import from, to the functions, globals, table and memory that the
//! runtime works with.
use vstd::prelude::*;
use crate::context::{interfaces_well_kinded, raw_u32_at, read_raw_u32};
use crate::decodable::views;
use crate::error::{Trap, TypeError, WasmError, WasmResult};
use crate::function::{FuncView, FunctionInstance};
use crate::global::{GlobalInstance, GlobalInstances, global_values};
use crate::indice::Indice;
use crate::instruction::{from_le_bytes_u32, le_bytes_u32, le_bytes_u64, lemma_from_le_bytes_u32, lemma_from_le_bytes_u64};
use crate::context::{global_value_type, spec_constant_steps, spec_validate_constant};
use crate::global::GlobalType;
use crate::value_type::ValueTypes;
use crate::link::{lemma_imports_of_kind, link_functions, link_globals, spec_link_functions, spec_link_globals};
use crate::memory::{Limit, MemoryInstance, MemoryInstances, link_bound, spec_fill_data, spec_init_data, spec_validate_memory};
use crate::module::{
    ExternalInterface, ExternalInterfaces, ExternalModule, ExternalModules, InternalModule, ModuleDescriptorKind, imports_of,
    import_groups_get, is_import_of, spec_link_table_check, FUNCTION_DESCRIPTOR, GLOBAL_DESCRIPTOR, MEMORY_DESCRIPTOR, TABLE_DESCRIPTOR,
};
use crate::sec_data::Data;
use crate::section::{Section, SectionView};
use crate::value::Values;
use crate::table::{TableInstance, limit_minimum};
use crate::vm::{Vm, fresh_state};
use crate::vm_spec::{MemState, Program, VmState, MAX_BODY_LEN, raw_u64_at};

verus! {

/// What an instance starts with: what stays fixed while it runs, the values
/// of its globals and its memory.
pub struct InstanceView {
    pub program: Program,
    pub globals: Seq<Values>,
    pub memory: Option<MemState>,
}

/// The functions of the first `n` code entries: each takes the type its entry
/// in the function section names. A code entry past the function section is
/// inconsistent; a type index past the types is not found; a code entry that
/// failed to decode gives its error.
pub open spec fn spec_function_views(m: SectionView, n: nat) -> Result<Seq<FuncView>, WasmError>
    decreases n,
{
    if n == 0 {
        Ok(seq![])
    } else {
        match spec_function_views(m, (n - 1) as nat) {
            Err(e) => Err(e),
            Ok(fs) => {
                let idx = n - 1;
                if idx >= m.functions.len() {
                    Err(WasmError::Trap(Trap::FunctionAndCodeInconsitent))
                } else if m.functions[idx] >= m.function_types.len() {
                    Err(WasmError::Trap(Trap::Notfound))
                } else {
                    match m.codes[idx] {
                        Err(e) => Err(e),
                        Ok((body, locals)) => Ok(fs.push(FuncView {
                            ty: m.function_types[m.functions[idx] as int],
                            locals,
                            body,
                            host: false,
                        })),
                    }
                }
            },
        }
    }
}

/// The value of a global's initializer, given the globals before it: a
/// constant, or the value of an earlier global.
pub open spec fn spec_global_init(init: Seq<u8>, prev: Seq<Values>) -> Result<Values, Trap> {
    if init.len() == 0 {
        Err(Trap::UnexpectedEnd)
    } else if init[0] == 0x41u8 {
        match raw_u32_at(init, 1) {
            Some(v) => Ok(Values::I32(v as i32)),
            None => Err(Trap::Unknown),
        }
    } else if init[0] == 0x42u8 {
        match raw_u64_at(init, 1) {
            Some(v) => Ok(Values::I64(v as i64)),
            None => Err(Trap::Unknown),
        }
    } else if init[0] == 0x43u8 {
        match raw_u32_at(init, 1) {
            Some(v) => Ok(Values::F32(v)),
            None => Err(Trap::Unknown),
        }
    } else if init[0] == 0x44u8 {
        match raw_u64_at(init, 1) {
            Some(v) => Ok(Values::F64(v)),
            None => Err(Trap::Unknown),
        }
    } else if init[0] == 0x23u8 {
        match raw_u32_at(init, 1) {
            Some(idx) => if idx < prev.len() {
                Ok(prev[idx as int])
            } else {
                Err(Trap::UnexpectedEnd)
            },
            None => Err(Trap::Unknown),
        }
    } else {
        Err(Trap::Unknown)
    }
}

/// The values of the imported globals `base` followed by those of the first
/// `n` globals of the module, each computed from those before it.
pub open spec fn spec_global_values(base: Seq<Values>, gs: Seq<(crate::global::GlobalType, Seq<u8>)>, n: nat) -> Result<Seq<Values>, Trap>
    decreases n,
{
    if n == 0 {
        Ok(base)
    } else {
        match spec_global_values(base, gs, (n - 1) as nat) {
            Err(e) => Err(e),
            Ok(vs) => match spec_global_init(gs[n - 1].1, vs) {
                Err(e) => Err(e),
                Ok(v) => Ok(vs.push(v)),
            },
        }
    }
}

/// Where an element segment starts: an `i32` constant, or the value of an
/// `i32` global; a negative start does not fit.
pub open spec fn spec_element_offset(expr: Seq<u8>, globals: Seq<Values>) -> Result<nat, Trap> {
    if expr.len() == 0 {
        Err(Trap::UnexpectedEnd)
    } else if expr.len() < 5 {
        Err(Trap::Unknown)
    } else if expr[0] == 0x41u8 {
        let v = from_le_bytes_u32(expr.subrange(1, 5)) as i32;
        if v < 0 {
            Err(Trap::ElementSegmentDoesNotFit)
        } else {
            Ok(v as nat)
        }
    } else if expr[0] == 0x23u8 {
        let idx = from_le_bytes_u32(expr.subrange(1, 5));
        if idx >= globals.len() {
            Err(Trap::Notfound)
        } else {
            match globals[idx as int] {
                Values::I32(v) => if v < 0 {
                    Err(Trap::ElementSegmentDoesNotFit)
                } else {
                    Ok(v as nat)
                },
                _ => Err(Trap::TypeMismatch),
            }
        }
    } else {
        Err(Trap::Unknown)
    }
}

/// A table of `size` slots filled by the first `n` element segments in
/// order: each slot of a segment's range names its function when there is
/// one. A segment that reaches past the table does not fit.
pub open spec fn spec_table(
    elements: Seq<(u32, Seq<u8>, Seq<u32>)>,
    n: nat,
    size: nat,
    globals: Seq<Values>,
    nfuncs: nat,
) -> Result<Seq<Option<u32>>, Trap>
    decreases n,
{
    if n == 0 {
        Ok(Seq::new(size, |i: int| None::<u32>))
    } else {
        match spec_table(elements, (n - 1) as nat, size, globals, nfuncs) {
            Err(e) => Err(e),
            Ok(prev) => {
                let el = elements[n - 1];
                match spec_element_offset(el.1, globals) {
                    Err(e) => Err(e),
                    Ok(offset) => if offset + el.2.len() > size {
                        Err(Trap::ElementSegmentDoesNotFit)
                    } else {
                        Ok(Seq::new(size, |i: int| if offset <= i < offset + el.2.len() {
                            if el.2[i - offset] < nfuncs { Some(el.2[i - offset]) } else { None::<u32> }
                        } else {
                            prev[i]
                        }))
                    },
                }
            },
        }
    }
}

/// Once filling with the first `k + 1` segments fails, filling with more fails the same way.
proof fn lemma_table_error(
    elements: Seq<(u32, Seq<u8>, Seq<u32>)>,
    k: nat,
    j: nat,
    size: nat,
    globals: Seq<Values>,
    nfuncs: nat,
)
    requires
        j > 0,
        spec_table(elements, k + 1, size, globals, nfuncs) is Err,
    ensures
        spec_table(elements, k + j, size, globals, nfuncs) == spec_table(elements, k + 1, size, globals, nfuncs),
    decreases j,
{
    if j > 1 {
        lemma_table_error(elements, k, (j - 1) as nat, size, globals, nfuncs);
        assert(spec_table(elements, k + j, size, globals, nfuncs) == spec_table(elements, (k + j - 1) as nat, size, globals, nfuncs));
    }
}

/// The tables of the first `k` table types, every element segment applied to
/// each; the first is the one kept.
pub open spec fn spec_tables(m: SectionView, k: nat, globals: Seq<Values>, nfuncs: nat) -> Result<Option<Seq<Option<u32>>>, Trap>
    decreases k,
{
    if k == 0 {
        Ok(None)
    } else {
        match spec_tables(m, (k - 1) as nat, globals, nfuncs) {
            Err(e) => Err(e),
            Ok(first) => match spec_table(m.elements, m.elements.len(), m.tables[k - 1].limit.spec_min() as nat, globals, nfuncs) {
                Err(e) => Err(e),
                Ok(t) => Ok(if k == 1 { Some(t) } else { first }),
            },
        }
    }
}

/// The memory: of the minimum size of the first limits, filled with the data
/// segments; none without limits.
pub open spec fn spec_memory(m: SectionView, globals: Seq<Values>) -> Result<Option<MemState>, Trap> {
    if m.limits.len() == 0 {
        Ok(None)
    } else {
        let limit = m.limits[0];
        if limit.spec_min() >= 65536 {
            Err(Trap::Unknown)
        } else {
            match spec_init_data(m.datas, m.datas.len(), globals, limit.spec_initial_min_size()) {
                Err(e) => Err(e),
                Ok(data) => Ok(Some(MemState { data, size: limit.spec_initial_min_size() as u32, limit })),
            }
        }
    }
}

/// The memory that a module imports, when it imports one: the first memory
/// import is linked (see `spec_validate_memory`); the importer gets a copy of
/// the memory, with its own limits if it has any, its data segments written.
pub open spec fn spec_imported_memory(
    m: SectionView,
    modules: Map<Option<Seq<char>>, ExternalModule>,
    gv: Seq<Values>,
) -> Result<Option<MemState>, WasmError> {
    let imports = imports_of(m.imports, ModuleDescriptorKind::Memory);
    if imports.len() == 0 {
        Ok(None)
    } else if !modules.dom().contains(imports[0].0) {
        Err(WasmError::Trap(Trap::UnknownImport))
    } else {
        let own = if m.limits.len() > 0 { Some(m.limits[0]) } else { None::<Limit> };
        let memories = modules[imports[0].0].spec_memories();
        match spec_validate_memory(memories, own, imports[0], m.datas, gv) {
            Err(e) => Err(e),
            Ok(()) => {
                let bound = link_bound(own, memories[0].spec_limit());
                match spec_fill_data(memories[0].spec_data(), m.datas, m.datas.len(), gv, bound.spec_initial_min_size()) {
                    Err(e) => Err(WasmError::Trap(e)),
                    Ok(data) => Ok(Some(MemState { data, size: memories[0].spec_surface_size(), limit: bound })),
                }
            },
        }
    }
}

/// The table of an instance: that of the module's first table type, each
/// table type being filled; with none, that of the first table import, when
/// there is one (see `spec_link_table_check`), with as many slots as the
/// imported table and filled by the module's element segments.
pub open spec fn spec_instance_table(
    m: SectionView,
    modules: Map<Option<Seq<char>>, ExternalModule>,
    gv: Seq<Values>,
    nfuncs: nat,
) -> Result<Option<Seq<Option<u32>>>, WasmError> {
    let imports = imports_of(m.imports, ModuleDescriptorKind::Table);
    if m.tables.len() > 0 {
        match spec_tables(m, m.tables.len(), gv, nfuncs) {
            Err(e) => Err(WasmError::Trap(e)),
            Ok(t) => Ok(t),
        }
    } else if imports.len() == 0 {
        Ok(None)
    } else {
        match spec_link_table_check(modules, imports[0]) {
            Err(e) => Err(e),
            Ok(()) => match spec_table(m.elements, m.elements.len(), modules[imports[0].0].spec_tables()[0].spec_elements().len(), gv, nfuncs) {
                Err(e) => Err(WasmError::Trap(e)),
                Ok(t) => Ok(Some(t)),
            },
        }
    }
}

/// The rest of instantiating a module, once its functions `fs`, the values
/// `gv` of its globals and the memory it imports, if any, are known: the
/// table; then, with no imported memory, the module's own memory. A body
/// longer than the bound is out of bounds.
pub open spec fn spec_instance_finish(
    m: SectionView,
    modules: Map<Option<Seq<char>>, ExternalModule>,
    fs: Seq<FuncView>,
    gv: Seq<Values>,
    imported_memory: Option<MemState>,
) -> Result<InstanceView, WasmError> {
    match spec_instance_table(m, modules, gv, fs.len()) {
        Err(e) => Err(e),
        Ok(table) => {
            let memory = if imports_of(m.imports, ModuleDescriptorKind::Memory).len() > 0 {
                Ok(imported_memory)
            } else {
                spec_memory(m, gv)
            };
            match memory {
                Err(e) => Err(WasmError::Trap(e)),
                Ok(memory) => if exists|i: int| 0 <= i < fs.len() && #[trigger] fs[i].body.len() >= MAX_BODY_LEN {
                    Err(WasmError::Trap(Trap::LengthOutofBounds))
                } else {
                    Ok(InstanceView { program: Program { functions: fs, types: m.function_types, table }, globals: gv, memory })
                },
            }
        },
    }
}

/// The type of the table of an instance: that of the module's first table
/// type, or else that of the table it imports.
pub open spec fn spec_instance_table_type(m: SectionView, modules: Map<Option<Seq<char>>, ExternalModule>) -> crate::sec_table::TableType {
    if m.tables.len() > 0 {
        m.tables[0]
    } else {
        modules[imports_of(m.imports, ModuleDescriptorKind::Table)[0].0].spec_tables()[0].spec_table_type()
    }
}

/// What instantiating a module gives, with `modules` registered to import
/// from. The module's own functions come first; then the function imports
/// are linked, and their functions come before the module's own; then the
/// global imports are linked, and the module's globals follow them; then an
/// imported memory; then the rest (see `spec_instance_finish`).
pub open spec fn spec_instance(m: SectionView, modules: Map<Option<Seq<char>>, ExternalModule>) -> Result<InstanceView, WasmError> {
    let fimports = imports_of(m.imports, ModuleDescriptorKind::Function);
    let gimports = imports_of(m.imports, ModuleDescriptorKind::Global);
    match spec_function_views(m, m.codes.len()) {
        Err(e) => Err(e),
        Ok(own) => match spec_link_functions(modules, fimports, m.function_types, fimports.len()) {
            Err(e) => Err(e),
            Ok(linked) => match spec_link_globals(modules, gimports, gimports.len()) {
                Err(e) => Err(e),
                Ok(gi) => match spec_global_values(gi, m.globals, m.globals.len()) {
                    Err(e) => Err(WasmError::Trap(e)),
                    Ok(gv) => match spec_imported_memory(m, modules, gv) {
                        Err(e) => Err(e),
                        Ok(imported_memory) => spec_instance_finish(m, modules, linked + own, gv, imported_memory),
                    },
                },
            },
        },
    }
}

/// The value of a global's initializer, given the globals before it.
pub fn global_init(init: &Vec<u8>, prev: &Vec<GlobalInstance>) -> (r: Result<Values, Trap>)
    ensures
        r == spec_global_init(init@, global_values(prev@)),
{
    if init.len() == 0 {
        return Err(Trap::UnexpectedEnd);
    }
    let code = init[0];
    if code == 0x41 {
        match read_raw_u32(init, 1) {
            Some(v) => Ok(Values::I32(v as i32)),
            None => Err(Trap::Unknown),
        }
    } else if code == 0x42 {
        match crate::vm::read_raw_u64(init, 1) {
            Some(v) => Ok(Values::I64(v as i64)),
            None => Err(Trap::Unknown),
        }
    } else if code == 0x43 {
        match read_raw_u32(init, 1) {
            Some(v) => Ok(Values::F32(v)),
            None => Err(Trap::Unknown),
        }
    } else if code == 0x44 {
        match crate::vm::read_raw_u64(init, 1) {
            Some(v) => Ok(Values::F64(v)),
            None => Err(Trap::Unknown),
        }
    } else if code == 0x23 {
        match read_raw_u32(init, 1) {
            Some(idx) => if (idx as usize) < prev.len() {
                Ok(prev[idx as usize].value)
            } else {
                Err(Trap::UnexpectedEnd)
            },
            None => Err(Trap::Unknown),
        }
    } else {
        Err(Trap::Unknown)
    }
}

/// Where an element segment starts.
pub fn element_offset(expr: &Vec<u8>, globals: &Vec<GlobalInstance>) -> (r: Result<usize, Trap>)
    ensures
        match spec_element_offset(expr@, global_values(globals@)) {
            Ok(n) => r == Ok::<usize, Trap>(n as usize) && n <= i32::MAX,
            Err(e) => r == Err::<usize, Trap>(e),
        },
{
    if expr.len() == 0 {
        return Err(Trap::UnexpectedEnd);
    }
    if expr.len() < 5 {
        return Err(Trap::Unknown);
    }
    let raw = match read_raw_u32(expr, 1) {
        Some(v) => v,
        None => return Err(Trap::Unknown),
    };
    if expr[0] == 0x41 {
        let v = raw as i32;
        if v < 0 {
            Err(Trap::ElementSegmentDoesNotFit)
        } else {
            Ok(v as usize)
        }
    } else if expr[0] == 0x23 {
        if (raw as usize) >= globals.len() {
            return Err(Trap::Notfound);
        }
        match globals[raw as usize].value {
            Values::I32(v) => if v < 0 {
                Err(Trap::ElementSegmentDoesNotFit)
            } else {
                Ok(v as usize)
            },
            _ => Err(Trap::TypeMismatch),
        }
    } else {
        Err(Trap::Unknown)
    }
}

/// A table of `size` slots filled by the element segments in order.
pub fn build_table(elements: &Vec<crate::sec_element::Element>, size: usize, globals: &Vec<GlobalInstance>, nfuncs: usize) -> (r: Result<Vec<Option<u32>>, Trap>)
    ensures
        match spec_table(views(elements@), elements@.len(), size as nat, global_values(globals@), nfuncs as nat) {
            Ok(t) => r matches Ok(v) && v@ == t,
            Err(e) => r == Err::<Vec<Option<u32>>, Trap>(e),
        },
{
    let ghost els = views(elements@);
    let ghost gv = global_values(globals@);
    let mut table: Vec<Option<u32>> = Vec::new();
    let mut i: usize = 0;
    while i < size
        invariant
            i <= size,
            table@ == Seq::new(i as nat, |j: int| None::<u32>),
        decreases size - i,
    {
        table.push(None);
        i = i + 1;
        proof {
            assert(table@ =~= Seq::new(i as nat, |j: int| None::<u32>));
        }
    }
    let mut k: usize = 0;
    while k < elements.len()
        invariant
            k <= elements@.len(),
            els == views(elements@),
            gv == global_values(globals@),
            spec_table(els, k as nat, size as nat, gv, nfuncs as nat) == Ok::<Seq<Option<u32>>, Trap>(table@),
        decreases elements@.len() - k,
    {
        let el = &elements[k];
        proof {
            assert(els[k as int] == el@);
        }
        let offset = match element_offset(&el.offset, globals) {
            Ok(o) => o,
            Err(e) => {
                proof {
                    lemma_table_error(els, k as nat, (elements@.len() - k) as nat, size as nat, gv, nfuncs as nat);
                }
                return Err(e);
            },
        };
        let len = el.init.len();
        if len > size || offset > size - len {
            proof {
                lemma_table_error(els, k as nat, (elements@.len() - k) as nat, size as nat, gv, nfuncs as nat);
            }
            return Err(Trap::ElementSegmentDoesNotFit);
        }
        let ghost prev = table@;
        let mut j: usize = 0;
        while j < len
            invariant
                j <= len,
                len == el.init@.len(),
                offset + len <= size,
                table@.len() == size,
                prev.len() == size,
                forall|x: int| 0 <= x < size ==> #[trigger] table@[x] == if offset <= x < offset + j {
                    if el.init@[x - offset] < nfuncs { Some(el.init@[x - offset]) } else { None::<u32> }
                } else {
                    prev[x]
                },
            decreases len - j,
        {
            let f = el.init[j];
            let slot = if (f as usize) < nfuncs { Some(f) } else { None };
            table.set(offset + j, slot);
            j = j + 1;
        }
        k = k + 1;
        proof {
            let target = spec_table(els, k as nat, size as nat, gv, nfuncs as nat);
            assert(target is Ok);
            assert(table@ =~= target->Ok_0);
        }
    }
    Ok(table)
}

/// Once the first `k + 1` code entries fail, more of them fail the same way.
proof fn lemma_functions_error(m: SectionView, k: nat, j: nat)
    requires
        j > 0,
        spec_function_views(m, k + 1) is Err,
    ensures
        spec_function_views(m, k + j) == spec_function_views(m, k + 1),
    decreases j,
{
    if j > 1 {
        lemma_functions_error(m, k, (j - 1) as nat);
        assert(spec_function_views(m, k + j) == spec_function_views(m, (k + j - 1) as nat));
    }
}

/// Once the first `k + 1` globals fail, more of them fail the same way.
proof fn lemma_globals_error(base: Seq<Values>, gs: Seq<(crate::global::GlobalType, Seq<u8>)>, k: nat, j: nat)
    requires
        j > 0,
        spec_global_values(base, gs, k + 1) is Err,
    ensures
        spec_global_values(base, gs, k + j) == spec_global_values(base, gs, k + 1),
    decreases j,
{
    if j > 1 {
        lemma_globals_error(base, gs, k, (j - 1) as nat);
        assert(spec_global_values(base, gs, k + j) == spec_global_values(base, gs, (k + j - 1) as nat));
    }
}

/// Once the first `k + 1` tables fail, more of them fail the same way.
proof fn lemma_tables_error(m: SectionView, k: nat, j: nat, globals: Seq<Values>, nfuncs: nat)
    requires
        j > 0,
        spec_tables(m, k + 1, globals, nfuncs) is Err,
    ensures
        spec_tables(m, k + j, globals, nfuncs) == spec_tables(m, k + 1, globals, nfuncs),
    decreases j,
{
    if j > 1 {
        lemma_tables_error(m, k, (j - 1) as nat, globals, nfuncs);
        assert(spec_tables(m, k + j, globals, nfuncs) == spec_tables(m, (k + j - 1) as nat, globals, nfuncs));
    }
}

/// The function instances of the code entries, each with the name it is
/// exported under.
fn function_instances(m: &Section) -> (r: WasmResult<Vec<FunctionInstance>>)
    requires
        interfaces_well_kinded(m@),
    ensures
        match spec_function_views(m@, m@.codes.len()) {
            Ok(fs) => r matches Ok(v) && views(v@) == fs,
            Err(e) => r == Err::<Vec<FunctionInstance>, WasmError>(e),
        },
{
    let codes = m.get_codes();
    let functions = m.get_functions();
    let types = m.get_function_types();
    let exports = m.get_exports();
    let mut out: Vec<FunctionInstance> = Vec::new();
    proof {
        assert(views(out@) =~= Seq::<FuncView>::empty());
    }
    let mut i: usize = 0;
    while i < codes.len()
        invariant
            i <= codes@.len(),
            code_views_len(codes@) == m@.codes.len(),
            crate::sec_code::code_views(codes@) == m@.codes,
            functions@ == m@.functions,
            views(types@) == m@.function_types,
            exports@ == m@.exports,
            interfaces_well_kinded(m@),
            spec_function_views(m@, i as nat) == Ok::<Seq<FuncView>, WasmError>(views(out@)),
        decreases codes@.len() - i,
    {
        if i >= functions.len() {
            proof {
                lemma_functions_error(m@, i as nat, (codes@.len() - i) as nat);
            }
            return Err(WasmError::Trap(Trap::FunctionAndCodeInconsitent));
        }
        let ti = functions[i];
        if (ti as usize) >= types.len() {
            proof {
                lemma_functions_error(m@, i as nat, (codes@.len() - i) as nat);
            }
            return Err(WasmError::Trap(Trap::Notfound));
        }
        proof {
            assert(m@.codes[i as int] == crate::sec_code::code_view(codes@[i as int]));
        }
        match &codes[i] {
            Err(e) => {
                proof {
                    lemma_functions_error(m@, i as nat, (codes@.len() - i) as nat);
                }
                return Err(*e);
            },
            Ok((body, locals)) => {
                let name = match exports.find_kind_by_idx(i as u32, &FUNCTION_DESCRIPTOR) {
                    Some(x) => Some(x.name.clone()),
                    None => None,
                };
                let b = body.clone();
                let l = locals.clone();
                proof {
                    assert(b@ =~= body@);
                    assert(l@ =~= locals@);
                }
                let f = FunctionInstance::new(name, types[ti as usize].clone(), l, b);
                proof {
                    crate::decodable::lemma_views_push(out@, f);
                }
                out.push(f);
            },
        }
        i = i + 1;
    }
    Ok(out)
}

/// The number of code entries.
pub open spec fn code_views_len(s: Seq<WasmResult<(Vec<u8>, Vec<crate::value_type::ValueTypes>)>>) -> nat {
    s.len()
}

/// The imported globals `imported`, then the globals of the module, each
/// with its initial value and the name it is exported under.
fn global_instances(m: &Section, imported: Vec<GlobalInstance>) -> (r: Result<Vec<GlobalInstance>, Trap>)
    requires
        interfaces_well_kinded(m@),
    ensures
        match spec_global_values(global_values(imported@), m@.globals, m@.globals.len()) {
            Ok(vs) => r matches Ok(v) && global_values(v@) == vs,
            Err(e) => r == Err::<Vec<GlobalInstance>, Trap>(e),
        },
{
    let globals = m.get_globals();
    let exports = m.get_exports();
    let ghost base = global_values(imported@);
    let mut out: Vec<GlobalInstance> = imported;
    let mut i: usize = 0;
    while i < globals.len()
        invariant
            i <= globals@.len(),
            crate::sec_global::global_views(globals@) == m@.globals,
            exports@ == m@.exports,
            interfaces_well_kinded(m@),
            base == global_values(imported@),
            spec_global_values(base, m@.globals, i as nat) == Ok::<Seq<Values>, Trap>(global_values(out@)),
        decreases globals@.len() - i,
    {
        let g = &globals[i];
        proof {
            assert(m@.globals[i as int] == crate::sec_global::global_view(*g));
        }
        let v = match global_init(&g.1, &out) {
            Ok(v) => v,
            Err(e) => {
                proof {
                    lemma_globals_error(base, m@.globals, i as nat, (globals@.len() - i) as nat);
                }
                return Err(e);
            },
        };
        let name = match exports.find_kind_by_idx(i as u32, &GLOBAL_DESCRIPTOR) {
            Some(x) => Some(x.name.clone()),
            None => None,
        };
        let gi = GlobalInstance::new(g.0, v, name);
        let ghost before = out@;
        out.push(gi);
        proof {
            assert(global_values(out@) =~= global_values(before).push(v));
        }
        i = i + 1;
    }
    Ok(out)
}

/// A copy of the data segments.
fn clone_datas(ds: &Vec<Data>) -> (r: Vec<Data>)
    ensures
        views(r@) == views(ds@),
{
    let mut out: Vec<Data> = Vec::new();
    let mut i: usize = 0;
    while i < ds.len()
        invariant
            i <= ds@.len(),
            views(out@) == views(ds@.subrange(0, i as int)),
        decreases ds@.len() - i,
    {
        let d = &ds[i];
        let offset = d.offset.clone();
        let init = d.init.clone();
        proof {
            assert(offset@ =~= d.offset@);
            assert(init@ =~= d.init@);
        }
        let c = Data { memidx: d.memidx, offset, init };
        proof {
            assert(c@ == d@);
            assert(ds@.subrange(0, i + 1) =~= ds@.subrange(0, i as int).push(*d));
            crate::decodable::lemma_views_push(ds@.subrange(0, i as int), *d);
            crate::decodable::lemma_views_push(out@, c);
        }
        out.push(c);
        i = i + 1;
    }
    proof {
        assert(ds@.subrange(0, ds@.len() as int) =~= ds@);
    }
    out
}

/// A copy of the function types.
fn clone_types(ts: &Vec<crate::function::FunctionType>) -> (r: Vec<crate::function::FunctionType>)
    ensures
        views(r@) == views(ts@),
{
    let mut out: Vec<crate::function::FunctionType> = Vec::new();
    let mut i: usize = 0;
    while i < ts.len()
        invariant
            i <= ts@.len(),
            views(out@) == views(ts@.subrange(0, i as int)),
        decreases ts@.len() - i,
    {
        let t = ts[i].clone();
        proof {
            assert(ts@.subrange(0, i + 1) =~= ts@.subrange(0, i as int).push(ts@[i as int]));
            crate::decodable::lemma_views_push(ts@.subrange(0, i as int), ts@[i as int]);
            crate::decodable::lemma_views_push(out@, t);
        }
        out.push(t);
        i = i + 1;
    }
    proof {
        assert(ts@.subrange(0, ts@.len() as int) =~= ts@);
    }
    out
}

/// A copy of the imports or exports.
fn clone_interfaces(xs: &ExternalInterfaces) -> (r: ExternalInterfaces)
    ensures
        r@ == xs@,
{
    let v = xs.iter();
    let mut out = ExternalInterfaces::new();
    let mut i: usize = 0;
    while i < v.len()
        invariant
            i <= v@.len(),
            v@.map_values(|x: ExternalInterface| x@) == xs@,
            out@ == xs@.subrange(0, i as int),
        decreases v@.len() - i,
    {
        let x = v[i].clone();
        proof {
            assert(xs@[i as int] == v@[i as int]@);
        }
        out.push(x);
        i = i + 1;
        proof {
            assert(out@ =~= xs@.subrange(0, i as int));
        }
    }
    proof {
        assert(xs@.subrange(0, xs@.len() as int) =~= xs@);
    }
    out
}

/// Viewing two sequences one after the other views each.
proof fn lemma_views_add<T: View>(a: Seq<T>, b: Seq<T>)
    ensures
        views(a + b) == views(a) + views(b),
{
    assert(views(a + b) =~= views(a) + views(b));
}

/// Instantiates a module, linking its imports to `external_modules`: its
/// functions (the imported ones first, as copies that record the module and
/// the name they came from), globals, table, memory, exports and
/// start function. The start function is not run here.
pub fn instantiate(m: &Section, external_modules: &ExternalModules) -> (r: WasmResult<Vm>)
    requires
        interfaces_well_kinded(m@),
    ensures
        match spec_instance(m@, external_modules.spec_modules()) {
            Ok(iv) => r matches Ok(vm) && {
                &&& vm.wf()
                &&& vm.program() == iv.program
                &&& vm.state() == fresh_state(VmState {
                    stack: vm.state().stack,
                    frames: seq![],
                    globals: iv.globals,
                    memory: iv.memory,
                })
                &&& vm.spec_internal_module().spec_exports() == m@.exports
                &&& vm.spec_internal_module().spec_start() == match m@.start {
                    Some(s) => Some(Indice(s)),
                    None => None::<Indice>,
                }
                &&& vm.spec_table() matches Some(t) ==> t.spec_table_type() == spec_instance_table_type(m@, external_modules.spec_modules())
                &&& forall|k: int| 0 <= k < imports_of(m@.imports, ModuleDescriptorKind::Function).len() ==> {
                    &&& (#[trigger] vm.spec_function_instances()[k]).spec_export_name() == Some(imports_of(m@.imports, ModuleDescriptorKind::Function)[k].1)
                    &&& imports_of(m@.imports, ModuleDescriptorKind::Function)[k].0 is Some ==> vm.spec_function_instances()[k].spec_source_module_name()
                        == imports_of(m@.imports, ModuleDescriptorKind::Function)[k].0
                }
            },
            Err(e) => r == Err::<Vm, WasmError>(e),
        },
{
    let ghost ms = external_modules.spec_modules();
    let groups = match m.get_imports().group_by_kind() {
        Ok(g) => g,
        Err(e) => return Err(e),
    };
    let mut own = match function_instances(m) {
        Ok(f) => f,
        Err(e) => return Err(e),
    };
    let function_imports = match import_groups_get(&groups, 0) {
        Some(v) => v,
        None => return Err(WasmError::Trap(Trap::UnexpectedEnd)),
    };
    proof {
        lemma_imports_of_kind(m@.imports, ModuleDescriptorKind::Function);
        assert forall|i: int| 0 <= i < function_imports@.len() implies is_import_of(#[trigger] function_imports@[i]@, ModuleDescriptorKind::Function) by {
            assert(views(function_imports@)[i] == function_imports@[i]@);
        }
    }
    let mut functions = match link_functions(function_imports, m.get_function_types(), external_modules) {
        Ok(f) => f,
        Err(e) => return Err(e),
    };
    let ghost linked = functions@;
    let ghost old_own = own@;
    functions.append(&mut own);
    proof {
        lemma_views_add(linked, old_own);
        assert forall|k: int| 0 <= k < imports_of(m@.imports, ModuleDescriptorKind::Function).len() implies {
            &&& (#[trigger] functions@[k]).spec_export_name() == Some(imports_of(m@.imports, ModuleDescriptorKind::Function)[k].1)
            &&& imports_of(m@.imports, ModuleDescriptorKind::Function)[k].0 is Some ==> functions@[k].spec_source_module_name()
                == imports_of(m@.imports, ModuleDescriptorKind::Function)[k].0
        } by {
            assert(views(function_imports@)[k] == function_imports@[k]@);
            assert(functions@[k] == linked[k]);
        }
    }
    let nfuncs = functions.len();
    let global_imports = match import_groups_get(&groups, 3) {
        Some(v) => v,
        None => return Err(WasmError::Trap(Trap::UnexpectedEnd)),
    };
    proof {
        lemma_imports_of_kind(m@.imports, ModuleDescriptorKind::Global);
        assert forall|i: int| 0 <= i < global_imports@.len() implies is_import_of(#[trigger] global_imports@[i]@, ModuleDescriptorKind::Global) by {
            assert(views(global_imports@)[i] == global_imports@[i]@);
        }
    }
    let imported_globals = match link_globals(global_imports, external_modules) {
        Ok(g) => g,
        Err(e) => return Err(e),
    };
    let globals = match global_instances(m, imported_globals) {
        Ok(g) => g,
        Err(e) => return Err(WasmError::Trap(e)),
    };
    let ghost gv = global_values(globals@);
    let memory_imports = match import_groups_get(&groups, 2) {
        Some(v) => v,
        None => return Err(WasmError::Trap(Trap::UnexpectedEnd)),
    };
    let limits = m.get_limits();
    let imported_memory: Option<MemoryInstances> = if memory_imports.len() > 0 {
        proof {
            lemma_imports_of_kind(m@.imports, ModuleDescriptorKind::Memory);
            assert(views(memory_imports@)[0] == memory_imports@[0]@);
        }
        let import = &memory_imports[0];
        let memories = match external_modules.find_memory_instances(import) {
            Ok(x) => x,
            Err(e) => return Err(e),
        };
        let own_limit = if limits.len() > 0 { Some(limits[0]) } else { None };
        let gis = GlobalInstances::new(clone_globals(&globals));
        match MemoryInstances::validate(memories, own_limit, import, m.get_datas(), &gis) {
            Ok(()) => {},
            Err(e) => return Err(e),
        }
        match MemoryInstances::from(memories, own_limit, m.get_datas(), &gis) {
            Ok(x) => Some(x),
            Err(e) => return Err(e),
        }
    } else {
        None
    };
    let ghost im = if imported_memory is Some { crate::vm::mem_state(imported_memory->Some_0) } else { None };
    proof {
        assert(spec_instance(m@, ms) == spec_instance_finish(m@, ms, views(functions@), gv, im));
    }
    let tables = m.get_tables();
    let mut table: Option<TableInstance> = None;
    if tables.len() == 0 {
        let table_imports = match import_groups_get(&groups, 1) {
            Some(v) => v,
            None => return Err(WasmError::Trap(Trap::UnexpectedEnd)),
        };
        if table_imports.len() > 0 {
            proof {
                lemma_imports_of_kind(m@.imports, ModuleDescriptorKind::Table);
                assert(views(table_imports@)[0] == table_imports@[0]@);
            }
            let import = &table_imports[0];
            let imported = match external_modules.find_table_instances(import) {
                Ok(t) => t,
                Err(e) => return Err(e),
            };
            match imported.link(m.get_elements(), &globals, nfuncs) {
                Ok(t) => {
                    table = Some(t);
                },
                Err(e) => return Err(e),
            }
        }
    } else {
        let mut k: usize = 0;
        while k < tables.len()
            invariant
                k <= tables@.len(),
                tables@ == m@.tables,
                tables@.len() > 0,
                gv == global_values(globals@),
                nfuncs == functions@.len(),
                spec_instance(m@, ms) == spec_instance_finish(m@, ms, views(functions@), gv, im),
                ms == external_modules.spec_modules(),
                spec_tables(m@, k as nat, gv, nfuncs as nat) == Ok::<Option<Seq<Option<u32>>>, Trap>(
                    crate::vm::table_view(table),
                ),
                k > 0 ==> (table matches Some(t) && t.spec_table_type() == m@.tables[0]),
                interfaces_well_kinded(m@),
            decreases tables@.len() - k,
        {
            let size = limit_minimum(tables[k].limit) as usize;
            let elements = m.get_elements();
            let t = match build_table(elements, size, &globals, nfuncs) {
                Ok(t) => t,
                Err(e) => {
                    proof {
                        lemma_tables_error(m@, k as nat, (tables@.len() - k) as nat, gv, nfuncs as nat);
                    }
                    return Err(WasmError::Trap(e));
                },
            };
            if k == 0 {
                let name = match m.get_exports().find_kind_by_idx(0, &TABLE_DESCRIPTOR) {
                    Some(x) => Some(x.name.clone()),
                    None => None,
                };
                table = Some(TableInstance::from_elements(t, tables[0], name));
            }
            k = k + 1;
        }
    }
    let memories = match imported_memory {
        Some(x) => x,
        None => if limits.len() == 0 {
            MemoryInstances::empty()
        } else {
            let limit = limits[0];
            if limit_minimum(limit) >= 65536 {
                return Err(WasmError::Trap(Trap::Unknown));
            }
            proof {
                let mn = limit.spec_min();
                assert(65536 * mn <= 65536 * 65535) by (nonlinear_arith)
                    requires
                        mn < 65536,
                ;
            }
            let name = match m.get_exports().find_kind_by_idx(0, &MEMORY_DESCRIPTOR) {
                Some(x) => Some(x.name.clone()),
                None => None,
            };
            let gis = GlobalInstances::new(clone_globals(&globals));
            let mi = match MemoryInstance::new(clone_datas(m.get_datas()), limit, name, &gis) {
                Ok(mi) => mi,
                Err(e) => return Err(e),
            };
            let mut v: Vec<MemoryInstance> = Vec::new();
            v.push(mi);
            MemoryInstances::new(v)
        },
    };
    let internal = InternalModule::new(clone_interfaces(m.get_exports()), m.get_start());
    let ghost fs = views(functions@);
    let ghost fvec = functions@;
    let types = clone_types(m.get_function_types());
    let gis = GlobalInstances::new(globals);
    match Vm::new(functions, types, table, gis, memories, internal) {
        Ok(vm) => {
            proof {
                assert(forall|i: int| 0 <= i < fs.len() ==> #[trigger] fs[i].body.len() < MAX_BODY_LEN);
                assert(spec_instance(m@, ms) is Ok);
            }
            Ok(vm)
        },
        Err(e) => {
            proof {
                let i = choose|i: int| 0 <= i < fvec.len() && !(#[trigger] fvec[i]@.body.len() < MAX_BODY_LEN);
                assert(fs[i] == fvec[i]@);
                assert(fs[i].body.len() >= MAX_BODY_LEN);
            }
            Err(WasmError::Trap(e))
        },
    }
}

/// A copy of the globals.
fn clone_globals(gs: &Vec<GlobalInstance>) -> (r: Vec<GlobalInstance>)
    ensures
        global_values(r@) == global_values(gs@),
{
    let mut out: Vec<GlobalInstance> = Vec::new();
    let mut i: usize = 0;
    while i < gs.len()
        invariant
            i <= gs@.len(),
            global_values(out@) == global_values(gs@.subrange(0, i as int)),
        decreases gs@.len() - i,
    {
        let g = &gs[i];
        let name = match &g.export_name {
            Some(n) => Some(n.clone()),
            None => None,
        };
        let c = GlobalInstance::new(g.global_type, g.value, name);
        let ghost before = out@;
        out.push(c);
        i = i + 1;
        proof {
            assert(gs@.subrange(0, i as int) =~= gs@.subrange(0, i - 1).push(gs@[i - 1]));
            assert(global_values(out@) =~= global_values(before).push(c.value));
            assert(global_values(gs@.subrange(0, i as int)) =~= global_values(gs@.subrange(0, i - 1)).push(gs@[i - 1].value));
        }
    }
    proof {
        assert(gs@.subrange(0, gs@.len() as int) =~= gs@);
    }
    out
}


/// A constant initializer gives the value it encodes: `i32.const` (0x41)
/// and `i64.const` (0x42), followed by the bytes of a word, give that word
/// as an integer of that type; `f32.const` (0x43) and `f64.const` (0x44) give the float of those
/// bits; `global.get idx` (0x23) of an earlier global gives its value.
pub proof fn lemma_global_init_constants(c32: u32, c64: u64, f32_bits: u32, f64_bits: u64, idx: u32, rest: Seq<u8>, prev: Seq<Values>)
    ensures
        spec_global_init(seq![0x41u8] + le_bytes_u32(c32) + rest, prev) == Ok::<Values, Trap>(Values::I32(c32 as i32)),
        spec_global_init(seq![0x42u8] + le_bytes_u64(c64) + rest, prev) == Ok::<Values, Trap>(Values::I64(c64 as i64)),
        spec_global_init(seq![0x43u8] + le_bytes_u32(f32_bits) + rest, prev) == Ok::<Values, Trap>(Values::F32(f32_bits)),
        spec_global_init(seq![0x44u8] + le_bytes_u64(f64_bits) + rest, prev) == Ok::<Values, Trap>(Values::F64(f64_bits)),
        idx < prev.len() ==> spec_global_init(seq![0x23u8] + le_bytes_u32(idx) + rest, prev) == Ok::<Values, Trap>(prev[idx as int]),
{
    let i1 = seq![0x41u8] + le_bytes_u32(c32) + rest;
    assert(i1.subrange(1, 5) =~= le_bytes_u32(c32));
    lemma_from_le_bytes_u32(c32);
    let i2 = seq![0x42u8] + le_bytes_u64(c64) + rest;
    assert(i2.subrange(1, 9) =~= le_bytes_u64(c64));
    lemma_from_le_bytes_u64(c64);
    let i3 = seq![0x43u8] + le_bytes_u32(f32_bits) + rest;
    assert(i3.subrange(1, 5) =~= le_bytes_u32(f32_bits));
    lemma_from_le_bytes_u32(f32_bits);
    let i4 = seq![0x44u8] + le_bytes_u64(f64_bits) + rest;
    assert(i4.subrange(1, 9) =~= le_bytes_u64(f64_bits));
    lemma_from_le_bytes_u64(f64_bits);
    let i5 = seq![0x23u8] + le_bytes_u32(idx) + rest;
    assert(i5.subrange(1, 5) =~= le_bytes_u32(idx));
    lemma_from_le_bytes_u32(idx);
}

/// Typing a constant expression only pushes: the stack it starts from is a
/// prefix of the one it ends with.
proof fn lemma_constant_steps_prefix(globals: Seq<GlobalType>, expr: Seq<u8>, p: nat, stack: Seq<ValueTypes>, allowed: bool)
    ensures
        spec_constant_steps(globals, expr, p, stack, allowed) matches Ok(out) ==> out.len() >= stack.len() && out.subrange(
            0,
            stack.len() as int,
        ) == stack,
    decreases expr.len() - p,
{
    if p < expr.len() {
        let c = expr[p as int];
        if c != 0x0b {
            if 0x41 <= c <= 0x44 {
                let w: nat = if c == 0x41 || c == 0x43 { 4 } else { 8 };
                let t = if c == 0x41 {
                    ValueTypes::I32
                } else if c == 0x42 {
                    ValueTypes::I64
                } else if c == 0x43 {
                    ValueTypes::F32
                } else {
                    ValueTypes::F64
                };
                if p + 1 + w <= expr.len() {
                    lemma_constant_steps_prefix(globals, expr, p + 1 + w, stack.push(t), allowed);
                    if let Ok(out) = spec_constant_steps(globals, expr, p, stack, allowed) {
                        assert(out.subrange(0, stack.len() as int) =~= out.subrange(0, (stack.len() + 1) as int).subrange(0, stack.len() as int));
                        assert(stack.push(t).subrange(0, stack.len() as int) =~= stack);
                    }
                }
            } else if c == 0x23 && allowed {
                if let Some(idx) = raw_u32_at(expr, p + 1) {
                    if idx < globals.len() {
                        let t = global_value_type(globals[idx as int]);
                        lemma_constant_steps_prefix(globals, expr, p + 5, stack.push(t), allowed);
                        if let Ok(out) = spec_constant_steps(globals, expr, p, stack, allowed) {
                            assert(out.subrange(0, stack.len() as int) =~= out.subrange(0, (stack.len() + 1) as int).subrange(0, stack.len() as int));
                            assert(stack.push(t).subrange(0, stack.len() as int) =~= stack);
                        }
                    }
                }
            }
        }
    }
}

/// An initializer that validates as type `t` gives a value of type `t`:
/// given, where `global.get` is allowed, earlier globals whose values have
/// the types the validator knows them by.
pub proof fn lemma_global_init_typed(globals: Seq<GlobalType>, init: Seq<u8>, allowed: bool, prev: Seq<Values>, t: ValueTypes)
    requires
        spec_validate_constant(globals, init, allowed) == Ok::<ValueTypes, TypeError>(t),
        allowed ==> globals.len() <= prev.len(),
        allowed ==> forall|i: int| 0 <= i < globals.len() ==> #[trigger] prev[i].value_type_spec() == global_value_type(globals[i]),
    ensures
        spec_global_init(init, prev) matches Ok(v) && v.value_type_spec() == t,
{
    assert(init.len() > 0);
    let c = init[0];
    if 0x41 <= c <= 0x44 {
        let w: nat = if c == 0x41 || c == 0x43 { 4 } else { 8 };
        let t0 = if c == 0x41 {
            ValueTypes::I32
        } else if c == 0x42 {
            ValueTypes::I64
        } else if c == 0x43 {
            ValueTypes::F32
        } else {
            ValueTypes::F64
        };
        assert(Seq::<ValueTypes>::empty().push(t0) =~= seq![t0]);
        lemma_constant_steps_prefix(globals, init, 1 + w, seq![t0], allowed);
        let out = spec_constant_steps(globals, init, 0, seq![], allowed)->Ok_0;
        assert(out.subrange(0, 1)[0] == t0);
    } else if c == 0x23 && allowed {
        let idx = raw_u32_at(init, 1)->Some_0;
        let t0 = global_value_type(globals[idx as int]);
        assert(Seq::<ValueTypes>::empty().push(t0) =~= seq![t0]);
        lemma_constant_steps_prefix(globals, init, 5, seq![t0], allowed);
        let out = spec_constant_steps(globals, init, 0, seq![], allowed)->Ok_0;
        assert(out.subrange(0, 1)[0] == t0);
        assert(prev[idx as int].value_type_spec() == global_value_type(globals[idx as int]));
    }
}

/// Every global of a module that validates holds a value of its declared
/// type: when each of the first `n` initializers validates, without
/// `global.get`, as its global's type, their values all come out, after the
/// imported ones, each of its global's type.
pub proof fn lemma_global_values_typed(globals: Seq<GlobalType>, base: Seq<Values>, gs: Seq<(GlobalType, Seq<u8>)>, n: nat)
    requires
        n <= gs.len(),
        forall|k: int| 0 <= k < n ==> spec_validate_constant(globals, #[trigger] gs[k].1, false) == Ok::<ValueTypes, TypeError>(global_value_type(gs[k].0)),
    ensures
        spec_global_values(base, gs, n) is Ok,
        spec_global_values(base, gs, n) matches Ok(vs) && vs.len() == base.len() + n && vs.subrange(0, base.len() as int) == base
            && forall|k: int| 0 <= k < n ==> #[trigger] vs[base.len() + k].value_type_spec() == global_value_type(gs[k].0),
    decreases n,
{
    if n > 0 {
        lemma_global_values_typed(globals, base, gs, (n - 1) as nat);
        let vs = spec_global_values(base, gs, (n - 1) as nat)->Ok_0;
        assert(spec_validate_constant(globals, gs[n - 1].1, false) == Ok::<ValueTypes, TypeError>(global_value_type(gs[n - 1].0)));
        lemma_global_init_typed(globals, gs[n - 1].1, false, vs, global_value_type(gs[n - 1].0));
        let v = spec_global_init(gs[n - 1].1, vs)->Ok_0;
        assert(vs.push(v).subrange(0, base.len() as int) =~= vs.subrange(0, base.len() as int));
        assert forall|k: int| 0 <= k < n implies #[trigger] vs.push(v)[base.len() + k].value_type_spec() == global_value_type(gs[k].0) by {
            if k < n - 1 {
                assert(vs[base.len() + k].value_type_spec() == global_value_type(gs[k].0));
            }
        }
    }
}

} // verus!
