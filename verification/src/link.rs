//! Linking the imports of a module to the modules registered for it: each
//! import is looked up by its module name and its name.
use vstd::prelude::*;
use crate::decodable::views;
use crate::error::{Trap, WasmError, WasmResult};
use crate::function::{FuncView, FunctionInstance, FunctionType};
use crate::global::{GlobalInstance, find_global_named, global_values};
use crate::module::{
    ExternalInterface, ExternalModule, ExternalModules, ImportDescriptor, ModuleDescriptor, ModuleDescriptorKind,
    imports_of, is_import_of, spec_link_function,
};
use crate::value::Values;
use crate::value_type::ValueTypes;

verus! {

/// Every import that `imports_of` keeps is of its kind.
pub proof fn lemma_imports_of_kind(s: Seq<(Option<Seq<char>>, Seq<char>, ModuleDescriptor)>, kind: ModuleDescriptorKind)
    ensures
        forall|i: int| 0 <= i < imports_of(s, kind).len() ==> #[trigger] is_import_of(imports_of(s, kind)[i], kind),
{
    let pred = |x: (Option<Seq<char>>, Seq<char>, ModuleDescriptor)| is_import_of(x, kind);
    assert forall|i: int| 0 <= i < imports_of(s, kind).len() implies #[trigger] is_import_of(imports_of(s, kind)[i], kind) by {
        s.lemma_filter_pred(pred, i);
    }
}

/// The functions that the first `n` function imports link to, in order: see
/// `spec_link_function`.
pub open spec fn spec_link_functions(
    modules: Map<Option<Seq<char>>, ExternalModule>,
    imports: Seq<(Option<Seq<char>>, Seq<char>, ModuleDescriptor)>,
    types: Seq<(Seq<ValueTypes>, Seq<ValueTypes>)>,
    n: nat,
) -> Result<Seq<FuncView>, WasmError>
    decreases n,
{
    if n == 0 {
        Ok(seq![])
    } else {
        match spec_link_functions(modules, imports, types, (n - 1) as nat) {
            Err(e) => Err(e),
            Ok(fs) => match spec_link_function(modules, imports[n - 1], types) {
                Err(e) => Err(e),
                Ok(f) => Ok(fs.push(f)),
            },
        }
    }
}

/// Once linking the first `k + 1` function imports fails, linking more fails the same way.
proof fn lemma_link_functions_error(
    modules: Map<Option<Seq<char>>, ExternalModule>,
    imports: Seq<(Option<Seq<char>>, Seq<char>, ModuleDescriptor)>,
    types: Seq<(Seq<ValueTypes>, Seq<ValueTypes>)>,
    k: nat,
    j: nat,
)
    requires
        j > 0,
        spec_link_functions(modules, imports, types, k + 1) is Err,
    ensures
        spec_link_functions(modules, imports, types, k + j) == spec_link_functions(modules, imports, types, k + 1),
    decreases j,
{
    if j > 1 {
        lemma_link_functions_error(modules, imports, types, k, (j - 1) as nat);
        assert(spec_link_functions(modules, imports, types, k + j) == spec_link_functions(modules, imports, types, (k + j - 1) as nat));
    }
}

/// The global that a global import links to: the module must be registered
/// and export a global under the import's name (else the import is unknown),
/// the first such global must have the type the import asks for (else the
/// import is incompatible).
pub open spec fn spec_link_global(
    modules: Map<Option<Seq<char>>, ExternalModule>,
    import: (Option<Seq<char>>, Seq<char>, ModuleDescriptor),
) -> Result<GlobalInstance, WasmError> {
    if !modules.dom().contains(import.0) {
        Err(WasmError::Trap(Trap::UnknownImport))
    } else {
        match find_global_named(modules[import.0].spec_globals(), import.1) {
            None => Err(WasmError::Trap(Trap::UnknownImport)),
            Some(g) => if g.global_type != import.2->ImportDescriptor_0->Global_0 {
                Err(WasmError::Trap(Trap::IncompatibleImportType))
            } else {
                Ok(g)
            },
        }
    }
}

/// The values of the globals that the first `n` global imports link to, in order.
pub open spec fn spec_link_globals(
    modules: Map<Option<Seq<char>>, ExternalModule>,
    imports: Seq<(Option<Seq<char>>, Seq<char>, ModuleDescriptor)>,
    n: nat,
) -> Result<Seq<Values>, WasmError>
    decreases n,
{
    if n == 0 {
        Ok(seq![])
    } else {
        match spec_link_globals(modules, imports, (n - 1) as nat) {
            Err(e) => Err(e),
            Ok(vs) => match spec_link_global(modules, imports[n - 1]) {
                Err(e) => Err(e),
                Ok(g) => Ok(vs.push(g.value)),
            },
        }
    }
}

/// Once linking the first `k + 1` global imports fails, linking more fails the same way.
proof fn lemma_link_globals_error(
    modules: Map<Option<Seq<char>>, ExternalModule>,
    imports: Seq<(Option<Seq<char>>, Seq<char>, ModuleDescriptor)>,
    k: nat,
    j: nat,
)
    requires
        j > 0,
        spec_link_globals(modules, imports, k + 1) is Err,
    ensures
        spec_link_globals(modules, imports, k + j) == spec_link_globals(modules, imports, k + 1),
    decreases j,
{
    if j > 1 {
        lemma_link_globals_error(modules, imports, k, (j - 1) as nat);
        assert(spec_link_globals(modules, imports, k + j) == spec_link_globals(modules, imports, (k + j - 1) as nat));
    }
}

/// The functions that the function imports link to, in order: copies of
/// them that record the module and the name they came from.
pub fn link_functions(imports: &Vec<ExternalInterface>, function_types: &Vec<FunctionType>, modules: &ExternalModules) -> (r: WasmResult<Vec<FunctionInstance>>)
    requires
        forall|i: int| 0 <= i < imports@.len() ==> is_import_of(#[trigger] imports@[i]@, ModuleDescriptorKind::Function),
    ensures
        match spec_link_functions(modules.spec_modules(), views(imports@), views(function_types@), imports@.len()) {
            Ok(fs) => r matches Ok(v) && views(v@) == fs && v@.len() == imports@.len() && forall|k: int|
                0 <= k < v@.len() ==> (#[trigger] v@[k]).spec_export_name() == Some(imports@[k]@.1)
                    && (imports@[k]@.0 is Some ==> v@[k].spec_source_module_name() == imports@[k]@.0),
            Err(e) => r == Err::<Vec<FunctionInstance>, WasmError>(e),
        },
{
    let ghost ms = modules.spec_modules();
    let ghost is = views(imports@);
    let ghost ts = views(function_types@);
    let mut out: Vec<FunctionInstance> = Vec::new();
    proof {
        assert(views(out@) =~= Seq::<FuncView>::empty());
    }
    let mut i: usize = 0;
    while i < imports.len()
        invariant
            i <= imports@.len(),
            ms == modules.spec_modules(),
            is == views(imports@),
            ts == views(function_types@),
            forall|j: int| 0 <= j < imports@.len() ==> is_import_of(#[trigger] imports@[j]@, ModuleDescriptorKind::Function),
            spec_link_functions(ms, is, ts, i as nat) == Ok::<Seq<FuncView>, WasmError>(views(out@)),
            out@.len() == i,
            forall|k: int|
                0 <= k < out@.len() ==> (#[trigger] out@[k]).spec_export_name() == Some(imports@[k]@.1)
                    && (imports@[k]@.0 is Some ==> out@[k].spec_source_module_name() == imports@[k]@.0),
        decreases imports@.len() - i,
    {
        let import = &imports[i];
        proof {
            assert(is[i as int] == import@);
            assert(is_import_of(imports@[i as int]@, ModuleDescriptorKind::Function));
        }
        let f = match modules.find_function_instances(import, function_types) {
            Ok(f) => f,
            Err(e) => {
                proof {
                    lemma_link_functions_error(ms, is, ts, i as nat, (imports@.len() - i) as nat);
                }
                return Err(e);
            },
        };
        proof {
            crate::decodable::lemma_views_push(out@, f);
        }
        out.push(f);
        i = i + 1;
    }
    Ok(out)
}

/// The globals that the global imports link to, in order: copies of them.
pub fn link_globals(imports: &Vec<ExternalInterface>, modules: &ExternalModules) -> (r: WasmResult<Vec<GlobalInstance>>)
    requires
        forall|i: int| 0 <= i < imports@.len() ==> is_import_of(#[trigger] imports@[i]@, ModuleDescriptorKind::Global),
    ensures
        match spec_link_globals(modules.spec_modules(), views(imports@), imports@.len()) {
            Ok(vs) => r matches Ok(v) && global_values(v@) == vs,
            Err(e) => r == Err::<Vec<GlobalInstance>, WasmError>(e),
        },
{
    let ghost ms = modules.spec_modules();
    let ghost is = views(imports@);
    let mut out: Vec<GlobalInstance> = Vec::new();
    proof {
        assert(global_values(out@) =~= Seq::<Values>::empty());
    }
    let mut i: usize = 0;
    while i < imports.len()
        invariant
            i <= imports@.len(),
            ms == modules.spec_modules(),
            is == views(imports@),
            forall|j: int| 0 <= j < imports@.len() ==> is_import_of(#[trigger] imports@[j]@, ModuleDescriptorKind::Global),
            spec_link_globals(ms, is, i as nat) == Ok::<Seq<Values>, WasmError>(global_values(out@)),
        decreases imports@.len() - i,
    {
        let import = &imports[i];
        proof {
            assert(is[i as int] == import@);
            assert(is_import_of(imports@[i as int]@, ModuleDescriptorKind::Global));
        }
        let ty = match import.descriptor {
            ModuleDescriptor::ImportDescriptor(ImportDescriptor::Global(t)) => t,
            _ => return Err(WasmError::Trap(Trap::UnexpectedEnd)),
        };
        let instances = match modules.find_global_instances(&import.module_name) {
            Ok(g) => g,
            Err(e) => {
                proof {
                    lemma_link_globals_error(ms, is, i as nat, (imports@.len() - i) as nat);
                }
                return Err(e);
            },
        };
        let g = match instances.find_instance(import.name.as_str()) {
            Some(g) => g,
            None => {
                proof {
                    lemma_link_globals_error(ms, is, i as nat, (imports@.len() - i) as nat);
                }
                return Err(WasmError::Trap(Trap::UnknownImport));
            },
        };
        if !g.is_same_type(&ty) {
            proof {
                lemma_link_globals_error(ms, is, i as nat, (imports@.len() - i) as nat);
            }
            return Err(WasmError::Trap(Trap::IncompatibleImportType));
        }
        let name = match &g.export_name {
            Some(n) => Some(n.clone()),
            None => None,
        };
        let copy = GlobalInstance::new(g.global_type, g.value, name);
        let ghost before = out@;
        out.push(copy);
        proof {
            assert(global_values(out@) =~= global_values(before).push(g.value));
        }
        i = i + 1;
    }
    Ok(out)
}

} // verus!
