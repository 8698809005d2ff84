//! Imports and exports of a module, what a module keeps of them, and the
//! modules registered for others to import from.
use vstd::prelude::*;
use crate::global::GlobalType;
use crate::indice::Indice;
use crate::memory::Limit;
use crate::sec_table::TableType;
use crate::decodable::views;
use crate::error::{Trap, WasmError, WasmResult};
use crate::function::{FuncView, FunctionInstance, FunctionType, find_function_named, lemma_find_function_at, lemma_find_function_none};
use crate::global::{GlobalInstance, GlobalInstances};
use crate::limit_order::limit_within;
use crate::memory::{MemoryInstance, MemoryInstances};
use crate::table::{TableInstance, TableInstances};
use crate::value_type::ValueTypes;
use heapless::LinearMap;

verus! {

/// What an import brings in: a function of a given type, a table, a memory or a global.
#[derive(Debug, Clone, Copy, PartialEq, Eq, Structural)]
pub enum ImportDescriptor {
    Function(Indice),
    Table(TableType),
    Memory(Limit),
    Global(GlobalType),
}

/// What an export gives out, by its index.
#[derive(Debug, Clone, Copy, PartialEq, Eq, Structural)]
pub enum ExportDescriptor {
    Function(Indice),
    Table(Indice),
    Memory(Indice),
    Global(Indice),
}

/// The export descriptor of a kind byte and an index: 0 a function, 1 a table,
/// 2 a memory, 3 a global; another byte, or none, gives none.
pub open spec fn spec_export_descriptor(code: Option<u8>, idx: u32) -> Option<ExportDescriptor> {
    match code {
        Some(0u8) => Some(ExportDescriptor::Function(Indice(idx))),
        Some(1u8) => Some(ExportDescriptor::Table(Indice(idx))),
        Some(2u8) => Some(ExportDescriptor::Memory(Indice(idx))),
        Some(3u8) => Some(ExportDescriptor::Global(Indice(idx))),
        _ => None,
    }
}

impl ExportDescriptor {
    /// The export descriptor of a kind byte and an index; an unknown kind is `Unknown`.
    pub fn from_code(code: Option<u8>, idx: u32) -> (r: Result<ExportDescriptor, Trap>)
        ensures
            match spec_export_descriptor(code, idx) {
                Some(d) => r == Ok::<ExportDescriptor, Trap>(d),
                None => r == Err::<ExportDescriptor, Trap>(Trap::Unknown),
            },
    {
        match code {
            Some(0x00) => Ok(ExportDescriptor::Function(Indice(idx))),
            Some(0x01) => Ok(ExportDescriptor::Table(Indice(idx))),
            Some(0x02) => Ok(ExportDescriptor::Memory(Indice(idx))),
            Some(0x03) => Ok(ExportDescriptor::Global(Indice(idx))),
            _ => Err(Trap::Unknown),
        }
    }
}

/// An import or an export.
#[derive(Debug, Clone, Copy, PartialEq, Eq, Structural)]
pub enum ModuleDescriptor {
    ImportDescriptor(ImportDescriptor),
    ExportDescriptor(ExportDescriptor),
}

/// The kinds of things that a module imports or exports.
#[derive(Debug, Clone, Copy, PartialEq, Eq, Structural)]
pub enum ModuleDescriptorKind {
    Function,
    Table,
    Memory,
    Global,
}

pub const FUNCTION_DESCRIPTOR: ModuleDescriptorKind = ModuleDescriptorKind::Function;

pub const TABLE_DESCRIPTOR: ModuleDescriptorKind = ModuleDescriptorKind::Table;

pub const MEMORY_DESCRIPTOR: ModuleDescriptorKind = ModuleDescriptorKind::Memory;

pub const GLOBAL_DESCRIPTOR: ModuleDescriptorKind = ModuleDescriptorKind::Global;

/// The kind that a byte names: 0 a function, 1 a table, 2 a memory, 3 a global.
pub open spec fn spec_descriptor_kind(code: Option<u8>) -> Option<ModuleDescriptorKind> {
    match code {
        Some(0u8) => Some(ModuleDescriptorKind::Function),
        Some(1u8) => Some(ModuleDescriptorKind::Table),
        Some(2u8) => Some(ModuleDescriptorKind::Memory),
        Some(3u8) => Some(ModuleDescriptorKind::Global),
        _ => None,
    }
}

impl ModuleDescriptorKind {
    /// The byte that names the kind.
    pub open spec fn spec_code(self) -> u8 {
        match self {
            ModuleDescriptorKind::Function => 0,
            ModuleDescriptorKind::Table => 1,
            ModuleDescriptorKind::Memory => 2,
            ModuleDescriptorKind::Global => 3,
        }
    }

    /// The byte that names the kind.
    pub fn code(&self) -> (r: u8)
        ensures
            r == self.spec_code(),
    {
        match self {
            ModuleDescriptorKind::Function => 0,
            ModuleDescriptorKind::Table => 1,
            ModuleDescriptorKind::Memory => 2,
            ModuleDescriptorKind::Global => 3,
        }
    }

    /// The kind that a byte names; an unknown kind is `Unknown`.
    pub fn from_code(code: Option<u8>) -> (r: Result<ModuleDescriptorKind, Trap>)
        ensures
            match spec_descriptor_kind(code) {
                Some(k) => r == Ok::<ModuleDescriptorKind, Trap>(k),
                None => r == Err::<ModuleDescriptorKind, Trap>(Trap::Unknown),
            },
    {
        match code {
            Some(0x0) => Ok(ModuleDescriptorKind::Function),
            Some(0x1) => Ok(ModuleDescriptorKind::Table),
            Some(0x2) => Ok(ModuleDescriptorKind::Memory),
            Some(0x3) => Ok(ModuleDescriptorKind::Global),
            _ => Err(Trap::Unknown),
        }
    }
}

/// The view of a name that may be missing.
pub open spec fn opt_string_view(s: Option<String>) -> Option<Seq<char>> {
    match s {
        Some(s) => Some(s@),
        None => None,
    }
}

/// An import or an export: the module it comes from (for an import), its
/// name, and what it is.
#[derive(Debug)]
pub struct ExternalInterface {
    pub module_name: Option<String>,
    pub name: String,
    pub descriptor: ModuleDescriptor,
}

impl View for ExternalInterface {
    type V = (Option<Seq<char>>, Seq<char>, ModuleDescriptor);

    open spec fn view(&self) -> (Option<Seq<char>>, Seq<char>, ModuleDescriptor) {
        (opt_string_view(self.module_name), self.name@, self.descriptor)
    }
}

impl Clone for ExternalInterface {
    fn clone(&self) -> (r: ExternalInterface)
        ensures
            r@ == self@,
    {
        let module_name = match &self.module_name {
            Some(m) => Some(m.clone()),
            None => None,
        };
        ExternalInterface { module_name, name: self.name.clone(), descriptor: self.descriptor }
    }
}

impl ExternalInterface {
    pub fn new(module_name: Option<String>, name: String, descriptor: ModuleDescriptor) -> (r: ExternalInterface)
        ensures
            r@ == (opt_string_view(module_name), name@, descriptor),
    {
        ExternalInterface { module_name, name, descriptor }
    }
}

/// Whether an interface exports a thing of `kind` with index `idx`.
pub open spec fn exports_kind_at(d: ModuleDescriptor, idx: u32, kind: ModuleDescriptorKind) -> bool {
    match d {
        ModuleDescriptor::ExportDescriptor(ExportDescriptor::Function(x)) => kind == ModuleDescriptorKind::Function && x.0 == idx,
        ModuleDescriptor::ExportDescriptor(ExportDescriptor::Table(x)) => kind == ModuleDescriptorKind::Table && x.0 == idx,
        ModuleDescriptor::ExportDescriptor(ExportDescriptor::Memory(x)) => kind == ModuleDescriptorKind::Memory && x.0 == idx,
        ModuleDescriptor::ExportDescriptor(ExportDescriptor::Global(x)) => kind == ModuleDescriptorKind::Global && x.0 == idx,
        ModuleDescriptor::ImportDescriptor(_) => false,
    }
}

/// The imports or the exports of a module, in the order they were declared.
#[derive(Debug)]
pub struct ExternalInterfaces(Vec<ExternalInterface>);

impl View for ExternalInterfaces {
    type V = Seq<(Option<Seq<char>>, Seq<char>, ModuleDescriptor)>;

    closed spec fn view(&self) -> Seq<(Option<Seq<char>>, Seq<char>, ModuleDescriptor)> {
        self.0@.map_values(|x: ExternalInterface| x@)
    }
}

impl ExternalInterfaces {
    /// No imports or exports.
    pub fn new() -> (r: ExternalInterfaces)
        ensures
            r@ == Seq::<(Option<Seq<char>>, Seq<char>, ModuleDescriptor)>::empty(),
    {
        let r = ExternalInterfaces(Vec::new());
        proof {
            assert(r@ =~= Seq::<(Option<Seq<char>>, Seq<char>, ModuleDescriptor)>::empty());
        }
        r
    }

    pub fn push(&mut self, value: ExternalInterface)
        ensures
            final(self)@ == old(self)@.push(value@),
    {
        self.0.push(value);
        proof {
            assert(self@ =~= old(self)@.push(value@));
        }
    }

    pub fn len(&self) -> (r: usize)
        ensures
            r == self@.len(),
    {
        self.0.len()
    }

    /// The interface at `i`.
    pub fn get(&self, i: usize) -> (r: &ExternalInterface)
        requires
            i < self@.len(),
        ensures
            r@ == self@[i as int],
    {
        &self.0[i]
    }

    /// The interfaces, in order.
    pub fn iter(&self) -> (r: &Vec<ExternalInterface>)
        ensures
            r@.map_values(|x: ExternalInterface| x@) == self@,
    {
        &self.0
    }

    /// The first export of `kind` with index `idx`. The search runs in order
    /// and must meet such an export before any import.
    pub fn find_kind_by_idx(&self, idx: u32, kind: &ModuleDescriptorKind) -> (r: Option<&ExternalInterface>)
        requires
            forall|i: int|
                0 <= i < self@.len() && self@[i].2 is ImportDescriptor ==> exists|j: int|
                    0 <= j < i && exports_kind_at(#[trigger] self@[j].2, idx, *kind),
        ensures
            r is Some <==> exists|i: int| 0 <= i < self@.len() && exports_kind_at(#[trigger] self@[i].2, idx, *kind),
            r matches Some(x) ==> exists|i: int|
                0 <= i < self@.len() && x@ == self@[i] && exports_kind_at(self@[i].2, idx, *kind) && forall|j: int|
                    0 <= j < i ==> !exports_kind_at(#[trigger] self@[j].2, idx, *kind),
    {
        let mut i: usize = 0;
        while i < self.0.len()
            invariant
                i <= self@.len(),
                self@.len() == self.0@.len(),
                forall|j: int| 0 <= j < i ==> !exports_kind_at(#[trigger] self@[j].2, idx, *kind),
                forall|j: int|
                    0 <= j < self@.len() && self@[j].2 is ImportDescriptor ==> exists|k: int|
                        0 <= k < j && exports_kind_at(#[trigger] self@[k].2, idx, *kind),
            decreases self@.len() - i,
        {
            let x = &self.0[i];
            proof {
                assert(self@[i as int] == x@);
            }
            let found = match &x.descriptor {
                ModuleDescriptor::ExportDescriptor(ExportDescriptor::Function(y)) => *kind == ModuleDescriptorKind::Function && y.0 == idx,
                ModuleDescriptor::ExportDescriptor(ExportDescriptor::Table(y)) => *kind == ModuleDescriptorKind::Table && y.0 == idx,
                ModuleDescriptor::ExportDescriptor(ExportDescriptor::Memory(y)) => *kind == ModuleDescriptorKind::Memory && y.0 == idx,
                ModuleDescriptor::ExportDescriptor(ExportDescriptor::Global(y)) => *kind == ModuleDescriptorKind::Global && y.0 == idx,
                ModuleDescriptor::ImportDescriptor(_) => false,
            };
            if found {
                return Some(x);
            }
            i = i + 1;
        }
        None
    }
}

/// What a module keeps once instantiated: its exports and its start function.
#[derive(Debug)]
pub struct InternalModule {
    exports: ExternalInterfaces,
    pub start: Option<Indice>,
}

impl InternalModule {
    pub fn new(exports: ExternalInterfaces, start: Option<u32>) -> (r: InternalModule)
        ensures
            r.spec_exports() == exports@,
            r.spec_start() == match start {
                Some(s) => Some(Indice(s)),
                None => None::<Indice>,
            },
    {
        let start = match start {
            Some(s) => Some(Indice(s)),
            None => None,
        };
        InternalModule { exports, start }
    }

    /// The start function.
    pub fn start_function(&self) -> (r: Option<Indice>)
        ensures
            r == self.spec_start(),
    {
        self.start
    }

    /// The start function.
    pub closed spec fn spec_start(&self) -> Option<Indice> {
        self.start
    }

    /// The exports.
    pub closed spec fn spec_exports(&self) -> Seq<(Option<Seq<char>>, Seq<char>, ModuleDescriptor)> {
        self.exports@
    }

    /// The first export named `invoke`.
    pub fn get_export_by_key(&self, invoke: &str) -> (r: Option<&ExternalInterface>)
        ensures
            r is Some <==> exists|i: int| 0 <= i < self.spec_exports().len() && #[trigger] self.spec_exports()[i].1 == invoke@,
            r matches Some(x) ==> exists|i: int|
                0 <= i < self.spec_exports().len() && x@ == self.spec_exports()[i] && x@.1 == invoke@ && forall|j: int|
                    0 <= j < i ==> #[trigger] self.spec_exports()[j].1 != invoke@,
    {
        let key = invoke.to_owned();
        let exports = self.exports.iter();
        let mut i: usize = 0;
        while i < exports.len()
            invariant
                i <= exports@.len(),
                exports@.map_values(|x: ExternalInterface| x@) == self.spec_exports(),
                key@ == invoke@,
                forall|j: int| 0 <= j < i ==> #[trigger] self.spec_exports()[j].1 != invoke@,
            decreases exports@.len() - i,
        {
            let x = &exports[i];
            proof {
                assert(self.spec_exports()[i as int] == x@);
            }
            if x.name == key {
                proof {
                    assert(self.spec_exports()[i as int].1 == invoke@);
                }
                return Some(x);
            }
            i = i + 1;
        }
        None
    }
}

/// The kind of what an import brings in.
pub open spec fn import_kind(d: ImportDescriptor) -> ModuleDescriptorKind {
    match d {
        ImportDescriptor::Function(_) => ModuleDescriptorKind::Function,
        ImportDescriptor::Table(_) => ModuleDescriptorKind::Table,
        ImportDescriptor::Memory(_) => ModuleDescriptorKind::Memory,
        ImportDescriptor::Global(_) => ModuleDescriptorKind::Global,
    }
}

/// Whether an interface imports a thing of `kind`.
pub open spec fn is_import_of(x: (Option<Seq<char>>, Seq<char>, ModuleDescriptor), kind: ModuleDescriptorKind) -> bool {
    match x.2 {
        ModuleDescriptor::ImportDescriptor(d) => import_kind(d) == kind,
        ModuleDescriptor::ExportDescriptor(_) => false,
    }
}

/// The imports of `kind` among `s`, in order.
pub open spec fn imports_of(
    s: Seq<(Option<Seq<char>>, Seq<char>, ModuleDescriptor)>,
    kind: ModuleDescriptorKind,
) -> Seq<(Option<Seq<char>>, Seq<char>, ModuleDescriptor)> {
    s.filter(|x: (Option<Seq<char>>, Seq<char>, ModuleDescriptor)| is_import_of(x, kind))
}

/// The fixed-capacity map of `heapless`, searched key by key.
#[verifier::external_type_specification]
#[verifier::external_body]
#[verifier::reject_recursive_types(K)]
#[verifier::reject_recursive_types(V)]
pub struct ExLinearMap<K, V, const N: usize>(LinearMap<K, V, N>);

/// Imports grouped by kind, keyed by the byte of the kind.
pub type ImportGroups = LinearMap<u8, Vec<ExternalInterface>, 4>;

/// What a map of imports grouped by kind holds: for each key, the views of the imports.
pub uninterp spec fn kind_groups(m: ImportGroups) -> Map<u8, Seq<(Option<Seq<char>>, Seq<char>, ModuleDescriptor)>>;

/// `heapless::LinearMap::new`: a map with no keys.
#[verifier::external_body]
fn import_groups_new() -> (r: ImportGroups)
    ensures
        kind_groups(r).dom() == Set::<u8>::empty(),
{
    LinearMap::new()
}

/// `heapless::LinearMap::insert`: a key that is there gets the new value, and
/// the old one is handed back; a new key is added while the map holds fewer
/// keys than its capacity of 4; otherwise the pair is handed back and the map
/// is left as it was.
#[verifier::external_body]
fn import_groups_insert(
    m: &mut ImportGroups,
    key: u8,
    value: Vec<ExternalInterface>,
) -> (r: Result<Option<Vec<ExternalInterface>>, (u8, Vec<ExternalInterface>)>)
    ensures
        kind_groups(*old(m)).dom().contains(key) || kind_groups(*old(m)).dom().len() < 4 ==> r is Ok
            && kind_groups(*final(m)) == kind_groups(*old(m)).insert(key, views(value@)),
        kind_groups(*old(m)).dom().contains(key) ==> (r matches Ok(Some(v)) && views(v@) == kind_groups(*old(m))[key]),
        !kind_groups(*old(m)).dom().contains(key) && kind_groups(*old(m)).dom().len() < 4 ==> r matches Ok(None),
        !kind_groups(*old(m)).dom().contains(key) && kind_groups(*old(m)).dom().len() >= 4 ==> r is Err
            && kind_groups(*final(m)) == kind_groups(*old(m)),
{
    m.insert(key, value)
}

/// `heapless::LinearMap::get`: the value of a key, if the key is there.
#[verifier::external_body]
pub(crate) fn import_groups_get(m: &ImportGroups, key: u8) -> (r: Option<&Vec<ExternalInterface>>)
    ensures
        r is Some <==> kind_groups(*m).dom().contains(key),
        r matches Some(v) ==> views(v@) == kind_groups(*m)[key],
{
    m.get(&key)
}

impl ExternalInterfaces {
    /// The imports grouped by kind, each group in order, keyed by the byte of the kind.
    pub fn group_by_kind(&self) -> (r: WasmResult<ImportGroups>)
        requires
            forall|i: int| 0 <= i < self@.len() ==> #[trigger] self@[i].2 is ImportDescriptor,
        ensures
            r matches Ok(m) && kind_groups(m) == map![
                0u8 => imports_of(self@, ModuleDescriptorKind::Function),
                1u8 => imports_of(self@, ModuleDescriptorKind::Table),
                2u8 => imports_of(self@, ModuleDescriptorKind::Memory),
                3u8 => imports_of(self@, ModuleDescriptorKind::Global),
            ],
    {
        let mut buf_function: Vec<ExternalInterface> = Vec::new();
        let mut buf_table: Vec<ExternalInterface> = Vec::new();
        let mut buf_memory: Vec<ExternalInterface> = Vec::new();
        let mut buf_global: Vec<ExternalInterface> = Vec::new();
        let xs = self.iter();
        let mut i: usize = 0;
        proof {
            reveal(Seq::filter);
            assert(views(buf_function@) =~= imports_of(self@.take(0), ModuleDescriptorKind::Function));
            assert(views(buf_table@) =~= imports_of(self@.take(0), ModuleDescriptorKind::Table));
            assert(views(buf_memory@) =~= imports_of(self@.take(0), ModuleDescriptorKind::Memory));
            assert(views(buf_global@) =~= imports_of(self@.take(0), ModuleDescriptorKind::Global));
        }
        while i < xs.len()
            invariant
                i <= xs@.len(),
                xs@.map_values(|x: ExternalInterface| x@) == self@,
                views(buf_function@) == imports_of(self@.take(i as int), ModuleDescriptorKind::Function),
                views(buf_table@) == imports_of(self@.take(i as int), ModuleDescriptorKind::Table),
                views(buf_memory@) == imports_of(self@.take(i as int), ModuleDescriptorKind::Memory),
                views(buf_global@) == imports_of(self@.take(i as int), ModuleDescriptorKind::Global),
            decreases xs@.len() - i,
        {
            let x = &xs[i];
            proof {
                assert(self@[i as int] == x@);
                assert(self@.take(i + 1).drop_last() =~= self@.take(i as int));
                assert(self@.take(i + 1).last() == x@);
                reveal(Seq::filter);
            }
            match &x.descriptor {
                ModuleDescriptor::ImportDescriptor(ImportDescriptor::Function(_)) => {
                    let y = x.clone();
                    proof {
                        lemma_views_push_interface(buf_function@, y);
                    }
                    buf_function.push(y);
                },
                ModuleDescriptor::ImportDescriptor(ImportDescriptor::Table(_)) => {
                    let y = x.clone();
                    proof {
                        lemma_views_push_interface(buf_table@, y);
                    }
                    buf_table.push(y);
                },
                ModuleDescriptor::ImportDescriptor(ImportDescriptor::Memory(_)) => {
                    let y = x.clone();
                    proof {
                        lemma_views_push_interface(buf_memory@, y);
                    }
                    buf_memory.push(y);
                },
                ModuleDescriptor::ImportDescriptor(ImportDescriptor::Global(_)) => {
                    let y = x.clone();
                    proof {
                        lemma_views_push_interface(buf_global@, y);
                    }
                    buf_global.push(y);
                },
                ModuleDescriptor::ExportDescriptor(_) => {},
            }
            i = i + 1;
        }
        proof {
            assert(self@.take(xs@.len() as int) =~= self@);
        }
        let mut buf = import_groups_new();
        match import_groups_insert(&mut buf, ModuleDescriptorKind::Function.code(), buf_function) {
            Ok(_) => {},
            Err(_) => return Err(WasmError::Trap(Trap::LinearMapOverflowed)),
        }
        match import_groups_insert(&mut buf, ModuleDescriptorKind::Table.code(), buf_table) {
            Ok(_) => {},
            Err(_) => return Err(WasmError::Trap(Trap::LinearMapOverflowed)),
        }
        match import_groups_insert(&mut buf, ModuleDescriptorKind::Memory.code(), buf_memory) {
            Ok(_) => {},
            Err(_) => return Err(WasmError::Trap(Trap::LinearMapOverflowed)),
        }
        match import_groups_insert(&mut buf, ModuleDescriptorKind::Global.code(), buf_global) {
            Ok(_) => {},
            Err(_) => return Err(WasmError::Trap(Trap::LinearMapOverflowed)),
        }
        proof {
            assert(kind_groups(buf) =~= map![
                0u8 => imports_of(self@, ModuleDescriptorKind::Function),
                1u8 => imports_of(self@, ModuleDescriptorKind::Table),
                2u8 => imports_of(self@, ModuleDescriptorKind::Memory),
                3u8 => imports_of(self@, ModuleDescriptorKind::Global),
            ]);
        }
        Ok(buf)
    }
}

/// Pushing an interface pushes its view.
proof fn lemma_views_push_interface(s: Seq<ExternalInterface>, x: ExternalInterface)
    ensures
        views(s.push(x)) == views(s).push(x@),
{
    assert(views(s.push(x)) =~= views(s).push(x@));
}

/// A module that others import from: its functions, function types,
/// memories, tables and globals, each found by the name it is exported under.
#[derive(Debug)]
pub struct ExternalModule {
    pub function_instances: Vec<FunctionInstance>,
    function_types: Vec<FunctionType>,
    memory_instances: MemoryInstances,
    table_instances: TableInstances,
    global_instances: GlobalInstances,
}

/// What an importer gets for an import of a function from `module`, where
/// `types` are the importer's function types: the import's type index must
/// name one of them (else not found); the first function exported under the
/// import's name must exist (else the import is unknown) and have that type
/// (else the import is incompatible). The importer gets a copy of that
/// function, body included: the machine runs a function with a body in the
/// importing instance, and hands a host function to the embedder.
pub open spec fn spec_find_function(
    module: ExternalModule,
    import: (Option<Seq<char>>, Seq<char>, ModuleDescriptor),
    types: Seq<(Seq<ValueTypes>, Seq<ValueTypes>)>,
) -> Result<FuncView, WasmError> {
    let idx = import.2->ImportDescriptor_0->Function_0;
    if idx.0 >= types.len() {
        Err(WasmError::Trap(Trap::Notfound))
    } else {
        match find_function_named(module.spec_functions(), import.1) {
            None => Err(WasmError::Trap(Trap::UnknownImport)),
            Some(f) => if f@.ty != types[idx.0 as int] {
                Err(WasmError::Trap(Trap::IncompatibleImportType))
            } else {
                Ok(f@)
            },
        }
    }
}

/// Whether a table import can take the first table of `module`: it must be
/// exported under the import's name (else the import is unknown) and the
/// range of sizes of its limits must lie within the one the import asks for
/// (else the import is incompatible).
pub open spec fn spec_find_table(module: ExternalModule, import: (Option<Seq<char>>, Seq<char>, ModuleDescriptor)) -> Result<(), WasmError> {
    let tables = module.spec_tables();
    if !(tables.len() > 0 && tables[0].spec_export_name() == Some(import.1)) {
        Err(WasmError::Trap(Trap::UnknownImport))
    } else if !limit_within(tables[0].spec_table_type().limit, import.2->ImportDescriptor_0->Table_0.limit) {
        Err(WasmError::Trap(Trap::IncompatibleImportType))
    } else {
        Ok(())
    }
}

impl ExternalModule {
    /// The functions.
    pub closed spec fn spec_functions(&self) -> Seq<FunctionInstance> {
        self.function_instances@
    }

    /// The function types.
    pub closed spec fn spec_function_types(&self) -> Seq<(Seq<ValueTypes>, Seq<ValueTypes>)> {
        views(self.function_types@)
    }

    /// The memories.
    pub closed spec fn spec_memories(&self) -> Seq<MemoryInstance> {
        self.memory_instances.spec_instances()
    }

    /// The tables.
    pub closed spec fn spec_tables(&self) -> Seq<TableInstance> {
        self.table_instances.spec_instances()
    }

    /// The globals.
    pub closed spec fn spec_globals(&self) -> Seq<GlobalInstance> {
        self.global_instances.0@
    }

    pub fn new(
        function_instances: Vec<FunctionInstance>,
        function_types: Vec<FunctionType>,
        memory_instances: Vec<MemoryInstance>,
        table_instances: Vec<TableInstance>,
        global_instances: Vec<GlobalInstance>,
    ) -> (r: ExternalModule)
        ensures
            r.spec_functions() == function_instances@,
            r.spec_function_types() == views(function_types@),
            r.spec_memories() == memory_instances@,
            r.spec_tables() == table_instances@,
            r.spec_globals() == global_instances@,
    {
        ExternalModule {
            function_instances,
            function_types,
            memory_instances: MemoryInstances::new(memory_instances),
            table_instances: TableInstances::new(table_instances),
            global_instances: GlobalInstances::new(global_instances),
        }
    }

    /// The function an importer gets for the function import `key`, where
    /// `function_types` are the importer's function types: see
    /// `spec_find_function`. It records the module it came from.
    fn find_function_instance(&self, key: &ExternalInterface, function_types: &Vec<FunctionType>) -> (r: WasmResult<FunctionInstance>)
        requires
            key@.2 is ImportDescriptor,
            key@.2->ImportDescriptor_0 is Function,
        ensures
            match spec_find_function(*self, key@, views(function_types@)) {
                Ok(fv) => r matches Ok(f) && f@ == fv && f.spec_export_name() == Some(key@.1)
                    && (key@.0 is Some ==> f.spec_source_module_name() == key@.0),
                Err(e) => r == Err::<FunctionInstance, WasmError>(e),
            },
    {
        let idx = match key.descriptor {
            ModuleDescriptor::ImportDescriptor(ImportDescriptor::Function(idx)) => idx,
            _ => return Err(WasmError::Trap(Trap::UnexpectedEnd)),
        };
        if idx.to_usize() >= function_types.len() {
            return Err(WasmError::Trap(Trap::Notfound));
        }
        let expected_type = &function_types[idx.to_usize()];
        let mut i: usize = 0;
        while i < self.function_instances.len()
            invariant
                i <= self.spec_functions().len(),
                forall|j: int| 0 <= j < i ==> #[trigger] self.spec_functions()[j].spec_export_name() != Some(key@.1),
                key@.2 == ModuleDescriptor::ImportDescriptor(ImportDescriptor::Function(idx)),
                idx.0 < function_types@.len(),
                *expected_type == function_types@[idx.0 as int],
            decreases self.spec_functions().len() - i,
        {
            let instance = &self.function_instances[i];
            if instance.is_same_name(key.name.as_str()) {
                proof {
                    lemma_find_function_at(self.spec_functions(), key@.1, i as int);
                }
                match instance.validate_type(expected_type) {
                    Ok(()) => {},
                    Err(_) => return Err(WasmError::Trap(Trap::IncompatibleImportType)),
                }
                let mut f = instance.clone();
                f.set_source_module_name(&key.module_name);
                return Ok(f);
            }
            i = i + 1;
        }
        proof {
            lemma_find_function_none(self.spec_functions(), key@.1);
        }
        Err(WasmError::Trap(Trap::UnknownImport))
    }

    /// The tables, when the table import `key` can take the first of them:
    /// see `spec_find_table`.
    fn find_table_instance(&self, key: &ExternalInterface) -> (r: WasmResult<&TableInstances>)
        requires
            key@.2 is ImportDescriptor,
            key@.2->ImportDescriptor_0 is Table,
        ensures
            match spec_find_table(*self, key@) {
                Ok(()) => r matches Ok(t) && t.spec_instances() == self.spec_tables(),
                Err(e) => r == Err::<&TableInstances, WasmError>(e),
            },
    {
        let table_type = match key.descriptor {
            ModuleDescriptor::ImportDescriptor(ImportDescriptor::Table(t)) => t,
            _ => return Err(WasmError::Trap(Trap::UnexpectedEnd)),
        };
        if !self.table_instances.find_by_name(key.name.as_str()) {
            return Err(WasmError::Trap(Trap::UnknownImport));
        }
        if !self.table_instances.fits_table_type(&table_type) {
            return Err(WasmError::Trap(Trap::IncompatibleImportType));
        }
        Ok(&self.table_instances)
    }
}

impl Default for ExternalModule {
    fn default() -> (r: ExternalModule)
        ensures
            r.spec_functions().len() == 0,
            r.spec_function_types().len() == 0,
            r.spec_memories().len() == 0,
            r.spec_tables().len() == 0,
            r.spec_globals().len() == 0,
    {
        ExternalModule::new(Vec::new(), Vec::new(), Vec::new(), Vec::new(), Vec::new())
    }
}

/// Positions of registered modules, keyed by module name.
pub type ModuleIndex = LinearMap<Option<String>, usize, 32>;

/// What a map of module positions holds: for each module name, its position.
pub uninterp spec fn module_positions(m: ModuleIndex) -> Map<Option<Seq<char>>, usize>;

/// `heapless::LinearMap::new`: a map with no keys.
#[verifier::external_body]
fn module_index_new() -> (r: ModuleIndex)
    ensures
        module_positions(r).dom() == Set::<Option<Seq<char>>>::empty(),
{
    LinearMap::new()
}

/// `heapless::LinearMap::insert`: a key that is there (two names are the
/// same key when their texts are equal) gets the new value, and the old one
/// is handed back; a new key is added while the map holds fewer keys than its
/// capacity of 32; otherwise the pair is handed back and the map is left as
/// it was.
#[verifier::external_body]
fn module_index_insert(m: &mut ModuleIndex, key: Option<String>, value: usize) -> (r: Result<Option<usize>, (Option<String>, usize)>)
    ensures
        module_positions(*old(m)).dom().contains(opt_string_view(key)) || module_positions(*old(m)).dom().len() < 32 ==> r is Ok
            && module_positions(*final(m)) == module_positions(*old(m)).insert(opt_string_view(key), value),
        module_positions(*old(m)).dom().contains(opt_string_view(key)) ==> (r matches Ok(Some(v)) && v == module_positions(*old(m))[opt_string_view(key)]),
        !module_positions(*old(m)).dom().contains(opt_string_view(key)) && module_positions(*old(m)).dom().len() < 32 ==> r matches Ok(None),
        !module_positions(*old(m)).dom().contains(opt_string_view(key)) && module_positions(*old(m)).dom().len() >= 32 ==> r is Err
            && module_positions(*final(m)) == module_positions(*old(m)),
{
    m.insert(key, value)
}

/// `heapless::LinearMap::get`: the value of a key, if the key is there.
#[verifier::external_body]
fn module_index_get<'a>(m: &'a ModuleIndex, key: &Option<String>) -> (r: Option<&'a usize>)
    ensures
        r is Some <==> module_positions(*m).dom().contains(opt_string_view(*key)),
        r matches Some(v) ==> *v == module_positions(*m)[opt_string_view(*key)],
{
    m.get(key)
}

/// The modules registered for others to import from, by module name.
pub struct ExternalModules {
    positions: ModuleIndex,
    modules: Vec<ExternalModule>,
}

/// What linking a function import gives: the module must be registered
/// (else the import is unknown); then see `spec_find_function`.
pub open spec fn spec_link_function(
    modules: Map<Option<Seq<char>>, ExternalModule>,
    import: (Option<Seq<char>>, Seq<char>, ModuleDescriptor),
    types: Seq<(Seq<ValueTypes>, Seq<ValueTypes>)>,
) -> Result<FuncView, WasmError> {
    if !modules.dom().contains(import.0) {
        Err(WasmError::Trap(Trap::UnknownImport))
    } else {
        spec_find_function(modules[import.0], import, types)
    }
}

/// Whether a table import can be linked: the module must be registered
/// (else the import is unknown); then see `spec_find_table`.
pub open spec fn spec_link_table_check(
    modules: Map<Option<Seq<char>>, ExternalModule>,
    import: (Option<Seq<char>>, Seq<char>, ModuleDescriptor),
) -> Result<(), WasmError> {
    if !modules.dom().contains(import.0) {
        Err(WasmError::Trap(Trap::UnknownImport))
    } else {
        spec_find_table(modules[import.0], import)
    }
}

impl ExternalModules {
    /// Every position points at a module.
    #[verifier::type_invariant]
    closed spec fn positions_in_range(self) -> bool {
        forall|k: Option<Seq<char>>|
            module_positions(self.positions).dom().contains(k) ==> #[trigger] module_positions(self.positions)[k] < self.modules@.len()
    }

    /// The registered modules, by module name.
    pub closed spec fn spec_modules(&self) -> Map<Option<Seq<char>>, ExternalModule> {
        Map::new(
            |k: Option<Seq<char>>| module_positions(self.positions).dom().contains(k),
            |k: Option<Seq<char>>| self.modules@[module_positions(self.positions)[k] as int],
        )
    }

    /// The module registered under `module_name`, if there is one.
    pub fn get(&self, module_name: &Option<String>) -> (r: Option<&ExternalModule>)
        ensures
            r is Some <==> self.spec_modules().dom().contains(opt_string_view(*module_name)),
            r matches Some(m) ==> *m == self.spec_modules()[opt_string_view(*module_name)],
    {
        proof {
            use_type_invariant(self);
        }
        match module_index_get(&self.positions, module_name) {
            Some(i) => Some(&self.modules[*i]),
            None => None,
        }
    }

    /// Registers `value` under `key`, in place of a module registered under
    /// it before; a new name is refused once 32 are registered.
    pub fn register_module(&mut self, key: Option<String>, value: ExternalModule) -> (r: WasmResult<()>)
        ensures
            old(self).spec_modules().dom().contains(opt_string_view(key)) || old(self).spec_modules().dom().len() < 32 ==> r is Ok
                && final(self).spec_modules() == old(self).spec_modules().insert(opt_string_view(key), value),
            !old(self).spec_modules().dom().contains(opt_string_view(key)) && old(self).spec_modules().dom().len() >= 32 ==> r
                == Err::<(), WasmError>(WasmError::Trap(Trap::LinearMapOverflowed)) && final(self).spec_modules() == old(self).spec_modules(),
    {
        proof {
            use_type_invariant(&*self);
            assert(old(self).spec_modules().dom() =~= module_positions(old(self).positions).dom());
        }
        let ghost value_copy = value;
        let mut positions = module_index_new();
        let mut modules: Vec<ExternalModule> = Vec::new();
        std::mem::swap(&mut positions, &mut self.positions);
        std::mem::swap(&mut modules, &mut self.modules);
        let idx = modules.len();
        modules.push(value);
        let r = match module_index_insert(&mut positions, key, idx) {
            Ok(_) => Ok(()),
            Err(_) => {
                modules.pop();
                Err(WasmError::Trap(Trap::LinearMapOverflowed))
            },
        };
        std::mem::swap(&mut modules, &mut self.modules);
        std::mem::swap(&mut positions, &mut self.positions);
        proof {
            if r is Ok {
                assert(self.spec_modules() =~= old(self).spec_modules().insert(opt_string_view(key), value_copy));
            } else {
                assert(self.modules@ =~= old(self).modules@);
                assert(self.spec_modules() =~= old(self).spec_modules());
            }
        }
        r
    }

    /// The table at `idx` of the module registered under `module_name`: an
    /// unregistered module is an unknown import, a missing table not found.
    pub fn get_table_instance(&self, module_name: &Option<String>, idx: &Indice) -> (r: WasmResult<&TableInstance>)
        ensures
            !self.spec_modules().dom().contains(opt_string_view(*module_name)) ==> r == Err::<&TableInstance, WasmError>(
                WasmError::Trap(Trap::UnknownImport),
            ),
            self.spec_modules().dom().contains(opt_string_view(*module_name)) ==> {
                let tables = self.spec_modules()[opt_string_view(*module_name)].spec_tables();
                &&& idx.0 < tables.len() ==> (r matches Ok(t) && *t == tables[idx.0 as int])
                &&& idx.0 >= tables.len() ==> r == Err::<&TableInstance, WasmError>(WasmError::Trap(Trap::Notfound))
            },
    {
        match self.get(module_name) {
            Some(m) => match m.table_instances.get_table_at(idx) {
                Some(t) => Ok(t),
                None => Err(WasmError::Trap(Trap::Notfound)),
            },
            None => Err(WasmError::Trap(Trap::UnknownImport)),
        }
    }

    /// The function type at `idx` of the module registered under
    /// `module_name`: an unregistered module is an unknown import, a missing
    /// type not found.
    pub fn get_function_type(&self, module_name: &Option<String>, idx: u32) -> (r: WasmResult<FunctionType>)
        ensures
            !self.spec_modules().dom().contains(opt_string_view(*module_name)) ==> r == Err::<FunctionType, WasmError>(
                WasmError::Trap(Trap::UnknownImport),
            ),
            self.spec_modules().dom().contains(opt_string_view(*module_name)) ==> {
                let types = self.spec_modules()[opt_string_view(*module_name)].spec_function_types();
                &&& idx < types.len() ==> (r matches Ok(t) && t@ == types[idx as int])
                &&& idx >= types.len() ==> r == Err::<FunctionType, WasmError>(WasmError::Trap(Trap::Notfound))
            },
    {
        match self.get(module_name) {
            Some(m) => if (idx as usize) < m.function_types.len() {
                Ok(m.function_types[idx as usize].clone())
            } else {
                Err(WasmError::Trap(Trap::Notfound))
            },
            None => Err(WasmError::Trap(Trap::UnknownImport)),
        }
    }

    /// The function at `idx` of the module registered under `module_name`:
    /// an unregistered module is an unknown import, a missing function not found.
    pub fn get_function_instance(&self, module_name: &Option<String>, idx: usize) -> (r: WasmResult<&FunctionInstance>)
        ensures
            !self.spec_modules().dom().contains(opt_string_view(*module_name)) ==> r == Err::<&FunctionInstance, WasmError>(
                WasmError::Trap(Trap::UnknownImport),
            ),
            self.spec_modules().dom().contains(opt_string_view(*module_name)) ==> {
                let fs = self.spec_modules()[opt_string_view(*module_name)].spec_functions();
                &&& idx < fs.len() ==> (r matches Ok(f) && *f == fs[idx as int])
                &&& idx >= fs.len() ==> r == Err::<&FunctionInstance, WasmError>(WasmError::Trap(Trap::Notfound))
            },
    {
        match self.get(module_name) {
            Some(m) => if idx < m.function_instances.len() {
                Ok(&m.function_instances[idx])
            } else {
                Err(WasmError::Trap(Trap::Notfound))
            },
            None => Err(WasmError::Trap(Trap::UnknownImport)),
        }
    }

    /// The function an importer gets for the function import `import`, where
    /// `function_types` are the importer's function types: see `spec_link_function`.
    pub fn find_function_instances(&self, import: &ExternalInterface, function_types: &Vec<FunctionType>) -> (r: WasmResult<FunctionInstance>)
        requires
            import@.2 is ImportDescriptor,
            import@.2->ImportDescriptor_0 is Function,
        ensures
            match spec_link_function(self.spec_modules(), import@, views(function_types@)) {
                Ok(fv) => r matches Ok(f) && f@ == fv && f.spec_export_name() == Some(import@.1)
                    && (import@.0 is Some ==> f.spec_source_module_name() == import@.0),
                Err(e) => r == Err::<FunctionInstance, WasmError>(e),
            },
    {
        match self.get(&import.module_name) {
            Some(m) => m.find_function_instance(import, function_types),
            None => Err(WasmError::Trap(Trap::UnknownImport)),
        }
    }

    /// The memories of the module that `import` names; an unregistered module
    /// is an unknown import.
    pub fn find_memory_instances(&self, import: &ExternalInterface) -> (r: WasmResult<&MemoryInstances>)
        ensures
            self.spec_modules().dom().contains(import@.0) ==> (r matches Ok(m) && m.spec_instances() == self.spec_modules()[import@.0].spec_memories()),
            !self.spec_modules().dom().contains(import@.0) ==> r == Err::<&MemoryInstances, WasmError>(WasmError::Trap(Trap::UnknownImport)),
    {
        match self.get(&import.module_name) {
            Some(m) => Ok(&m.memory_instances),
            None => Err(WasmError::Trap(Trap::UnknownImport)),
        }
    }

    /// The tables of the module that the table import `import` names, when
    /// the import can take the first of them: see `spec_link_table_check`.
    pub fn find_table_instances(&self, import: &ExternalInterface) -> (r: WasmResult<&TableInstances>)
        requires
            import@.2 is ImportDescriptor,
            import@.2->ImportDescriptor_0 is Table,
        ensures
            match spec_link_table_check(self.spec_modules(), import@) {
                Ok(()) => r matches Ok(t) && t.spec_instances() == self.spec_modules()[import@.0].spec_tables(),
                Err(e) => r == Err::<&TableInstances, WasmError>(e),
            },
    {
        match self.get(&import.module_name) {
            Some(m) => m.find_table_instance(import),
            None => Err(WasmError::Trap(Trap::UnknownImport)),
        }
    }

    /// The globals of the module registered under `module_name`; an
    /// unregistered module is an unknown import.
    pub fn find_global_instances(&self, module_name: &Option<String>) -> (r: WasmResult<&GlobalInstances>)
        ensures
            self.spec_modules().dom().contains(opt_string_view(*module_name)) ==> (r matches Ok(g)
                && g.0@ == self.spec_modules()[opt_string_view(*module_name)].spec_globals()),
            !self.spec_modules().dom().contains(opt_string_view(*module_name)) ==> r == Err::<&GlobalInstances, WasmError>(
                WasmError::Trap(Trap::UnknownImport),
            ),
    {
        match self.get(module_name) {
            Some(m) => Ok(&m.global_instances),
            None => Err(WasmError::Trap(Trap::UnknownImport)),
        }
    }
}

/// What a lookup gives back of a registration: once `value` is registered
/// under `key`, the module registered under `key` is `value`, and the others
/// are those registered before.
pub proof fn lemma_register_then_get(before: ExternalModules, after: ExternalModules, key: Option<Seq<char>>, value: ExternalModule)
    requires
        after.spec_modules() == before.spec_modules().insert(key, value),
    ensures
        after.spec_modules().dom().contains(key),
        after.spec_modules()[key] == value,
        forall|k: Option<Seq<char>>| k != key && before.spec_modules().dom().contains(k) ==> #[trigger] after.spec_modules()[k] == before.spec_modules()[k],
{
}

impl Default for ExternalModules {
    fn default() -> (r: ExternalModules)
        ensures
            r.spec_modules().dom() == Set::<Option<Seq<char>>>::empty(),
    {
        let r = ExternalModules { positions: module_index_new(), modules: Vec::new() };
        proof {
            assert(r.spec_modules().dom() =~= Set::<Option<Seq<char>>>::empty());
        }
        r
    }
}

} // verus!
