//! Entry points for embedders: decoding a binary module.
use vstd::prelude::*;
use crate::byte::{Byte, spec_header};
use crate::decodable::Decodable;
use crate::error::{WasmError, WasmResult};
use crate::section::{Section, SectionCode, SectionView, empty_section_view, spec_add_section, spec_decode_module_body, spec_decode_sections, spec_section_code};
use crate::sec_custom::{export_item, import_item, spec_export, spec_import};
use crate::decodable::{spec_repeat, spec_u32, lemma_spec_u32_ok};
use crate::instance::{instantiate, spec_instance, spec_instance_table_type};
use crate::vm::{Vm, fresh_state};
use crate::vm_spec::VmState;
use crate::indice::Indice;
use crate::module::{ExternalModules, ModuleDescriptorKind, imports_of};
use crate::context::{Context, initial_env, interfaces_well_kinded, spec_new_functions, spec_validate_all, lemma_sigs_of_views};

verus! {

/// Decodes a binary module: its header, then its sections.
pub fn decode_module(bytes: &[u8]) -> (r: WasmResult<Section>)
    requires
        bytes@.len() + 16 < usize::MAX,
    ensures
        match spec_header(bytes@) {
            Err(e) => r == Err::<Section, WasmError>(WasmError::Trap(e)),
            Ok(rest) => match spec_decode_module_body(rest) {
                Ok(m) => r matches Ok(x) && x@ == m,
                Err(e) => r == Err::<Section, WasmError>(WasmError::Trap(e)),
            },
        },
        r matches Ok(m) ==> interfaces_well_kinded(m@),
{
    proof {
        lemma_decoded_well_kinded(bytes@);
    }
    match Byte::new_with_drop(bytes) {
        Ok(mut b) => b.decode(),
        Err(e) => Err(WasmError::Trap(e)),
    }
}

/// Validates a decoded module; a module that failed to decode fails with the same error.
pub fn validate_module(module: &WasmResult<Section>) -> (r: WasmResult<()>)
    requires
        module matches Ok(m) ==> interfaces_well_kinded(m@),
    ensures
        match module {
            Err(e) => r == Err::<(), WasmError>(*e),
            Ok(m) => match spec_new_functions(m@, m@.codes.len()) {
                Err(e) => r == Err::<(), WasmError>(e),
                Ok(fs) => match spec_validate_all(m@, initial_env(m@, fs), Seq::empty(), fs) {
                    Ok(()) => r is Ok,
                    Err(e) => r == Err::<(), WasmError>(WasmError::TypeError(e)),
                },
            },
        },
{
    match module {
        Ok(module) => {
            let mut context = match Context::new(module) {
                Ok(c) => c,
                Err(e) => return Err(e),
            };
            proof {
                lemma_sigs_of_views(context.spec_functions());
            }
            match context.validate() {
                Ok(()) => Ok(()),
                Err(e) => Err(WasmError::TypeError(e)),
            }
        },
        Err(err) => Err(*err),
    }
}

/// Instantiates a decoded module, linking its imports to the modules
/// registered in `external_modules`; a module that failed to decode fails
/// with the same error. The start function, if any, is left for the caller
/// to run.
pub fn instantiate_module(module: WasmResult<Section>, external_modules: &ExternalModules) -> (r: WasmResult<Vm>)
    requires
        module matches Ok(m) ==> interfaces_well_kinded(m@),
    ensures
        match module {
            Err(e) => r == Err::<Vm, WasmError>(e),
            Ok(m) => match spec_instance(m@, external_modules.spec_modules()) {
                Ok(iv) => r matches Ok(vm) && {
                    &&& vm.wf()
                    &&& vm.program() == iv.program
                    &&& vm.state() == fresh_state(VmState {
                        stack: vm.state().stack,
                        frames: seq![],
                        globals: iv.globals,
                        memory: iv.memory,
                    })
                    &&& vm.spec_internal_module().spec_exports() == m@.exports
                    &&& vm.spec_internal_module().spec_start() == match m@.start {
                        Some(s) => Some(Indice(s)),
                        None => None::<Indice>,
                    }
                    &&& vm.spec_table() matches Some(t) ==> t.spec_table_type() == spec_instance_table_type(m@, external_modules.spec_modules())
                    &&& forall|k: int| 0 <= k < imports_of(m@.imports, ModuleDescriptorKind::Function).len() ==> {
                        &&& (#[trigger] vm.spec_function_instances()[k]).spec_export_name() == Some(imports_of(m@.imports, ModuleDescriptorKind::Function)[k].1)
                        &&& imports_of(m@.imports, ModuleDescriptorKind::Function)[k].0 is Some ==> vm.spec_function_instances()[k].spec_source_module_name()
                            == imports_of(m@.imports, ModuleDescriptorKind::Function)[k].0
                    }
                },
                Err(e) => r == Err::<Vm, WasmError>(e),
            },
        },
{
    match module {
        Ok(m) => instantiate(&m, external_modules),
        Err(e) => Err(e),
    }
}

/// Reading `n` exports gives only exports.
proof fn lemma_exports_are_exports(bytes: Seq<u8>, ptr: nat, n: nat)
    ensures
        spec_repeat(bytes, ptr, n, export_item()).0 matches Ok(v) ==> forall|i: int|
            0 <= i < v.len() ==> #[trigger] v[i].2 is ExportDescriptor,
    decreases n,
{
    if n > 0 {
        lemma_exports_are_exports(bytes, ptr, (n - 1) as nat);
        let (r, p) = spec_repeat(bytes, ptr, (n - 1) as nat, export_item());
        if let Ok(out) = r {
            let x = spec_export(bytes, p).0;
            assert(export_item()(bytes, p) == spec_export(bytes, p));
            if let Ok(x) = x {
                assert(x.2 is ExportDescriptor);
                assert forall|i: int| 0 <= i < out.push(x).len() implies #[trigger] out.push(x)[i].2 is ExportDescriptor by {
                    if i < out.len() {
                        assert(out.push(x)[i] == out[i]);
                    }
                }
            }
        }
    }
}

/// Reading `n` imports gives only imports.
proof fn lemma_imports_are_imports(bytes: Seq<u8>, ptr: nat, n: nat)
    ensures
        spec_repeat(bytes, ptr, n, import_item()).0 matches Ok(v) ==> forall|i: int|
            0 <= i < v.len() ==> #[trigger] v[i].2 is ImportDescriptor,
    decreases n,
{
    if n > 0 {
        lemma_imports_are_imports(bytes, ptr, (n - 1) as nat);
        reveal(spec_import);
        let (r, p) = spec_repeat(bytes, ptr, (n - 1) as nat, import_item());
        if let Ok(out) = r {
            let x = spec_import(bytes, p).0;
            assert(import_item()(bytes, p) == spec_import(bytes, p));
            if let Ok(x) = x {
                assert(x.2 is ImportDescriptor);
                assert forall|i: int| 0 <= i < out.push(x).len() implies #[trigger] out.push(x)[i].2 is ImportDescriptor by {
                    if i < out.len() {
                        assert(out.push(x)[i] == out[i]);
                    }
                }
            }
        }
    }
}

/// Adding a section keeps exports exports and imports imports.
proof fn lemma_add_section_well_kinded(m: SectionView, code: SectionCode, sec: Seq<u8>)
    requires
        interfaces_well_kinded(m),
    ensures
        spec_add_section(m, code, sec) matches Ok(m2) ==> interfaces_well_kinded(m2),
{
    reveal(spec_add_section);
    match code {
        SectionCode::Export => {
            let (n, p) = spec_u32(sec, 0);
            if let Ok(n) = n {
                lemma_exports_are_exports(sec, p, n as nat);
            }
        },
        SectionCode::Import => {
            let (n, p) = spec_u32(sec, 0);
            if let Ok(n) = n {
                lemma_imports_are_imports(sec, p, n as nat);
            }
        },
        _ => {},
    }
}

/// Decoding sections keeps exports exports and imports imports.
proof fn lemma_sections_well_kinded(bytes: Seq<u8>, ptr: nat, m: SectionView)
    requires
        interfaces_well_kinded(m),
    ensures
        spec_decode_sections(bytes, ptr, m) matches Ok(m2) ==> interfaces_well_kinded(m2),
    decreases bytes.len() - ptr,
{
    if ptr < bytes.len() {
        if let Some(code) = spec_section_code(Some(bytes[ptr as int])) {
            let (size, p) = spec_u32(bytes, ptr + 1);
            if let Ok(size) = size {
                if p + size <= bytes.len() {
                    let sec = bytes.subrange(p as int, p + size);
                    lemma_add_section_well_kinded(m, code, sec);
                    if let Ok(m2) = spec_add_section(m, code, sec) {
                        lemma_spec_u32_ok(bytes, ptr + 1);
                        lemma_sections_well_kinded(bytes, (p + size) as nat, m2);
                    }
                }
            }
        }
    }
}

/// A decoded module lists only exports among its exports and only imports
/// among its imports, as validation and instantiation ask.
pub proof fn lemma_decoded_well_kinded(bytes: Seq<u8>)
    ensures
        spec_header(bytes) matches Ok(rest) ==> (spec_decode_module_body(rest) matches Ok(m) ==> interfaces_well_kinded(m)),
{
    if let Ok(rest) = spec_header(bytes) {
        lemma_sections_well_kinded(rest, 0, empty_section_view());
    }
}

} // verus!
