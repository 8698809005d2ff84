//! Tables of function references, as a module that others import from keeps them.
use vstd::prelude::*;
use crate::decodable::views;
use crate::error::{Trap, WasmError, WasmResult};
use crate::global::{GlobalInstance, global_values};
use crate::indice::Indice;
use crate::instance::{build_table, spec_table};
use crate::limit_order::{limit_greater, limit_gt, limit_le, limit_within};
use crate::memory::Limit;
use crate::module::opt_string_view;
use crate::sec_element::Element;
use crate::sec_table::TableType;

verus! {

/// A table: its slots, each naming a function of its module or empty, the
/// name it is exported under, and its type.
#[derive(Debug)]
pub struct TableInstance {
    function_elements: Vec<Option<u32>>,
    export_name: Option<String>,
    table_type: TableType,
}

/// The minimum of some limits.
pub fn limit_minimum(l: Limit) -> (r: u32)
    ensures
        r == l.spec_min(),
{
    match l {
        Limit::NoUpperLimit(min) => min,
        Limit::HasUpperLimit(min, _) => min,
    }
}

impl TableInstance {
    /// The slots.
    pub closed spec fn spec_elements(&self) -> Seq<Option<u32>> {
        self.function_elements@
    }

    /// The name the table is exported under.
    pub closed spec fn spec_export_name(&self) -> Option<Seq<char>> {
        opt_string_view(self.export_name)
    }

    /// The type of the table.
    pub closed spec fn spec_table_type(&self) -> TableType {
        self.table_type
    }

    /// A table with as many slots as the minimum of its limits, filled by the
    /// element segments in order; `nfuncs` is the number of functions that a
    /// slot may name.
    pub fn new(
        elements: &Vec<Element>,
        table_type: TableType,
        export_name: Option<String>,
        global_instances: &Vec<GlobalInstance>,
        nfuncs: usize,
    ) -> (r: WasmResult<TableInstance>)
        ensures
            match spec_table(views(elements@), elements@.len(), table_type.limit.spec_min() as nat, global_values(global_instances@), nfuncs as nat) {
                Ok(t) => r matches Ok(x) && x.spec_elements() == t && x.spec_export_name() == opt_string_view(export_name)
                    && x.spec_table_type() == table_type,
                Err(e) => r == Err::<TableInstance, WasmError>(WasmError::Trap(e)),
            },
    {
        let size = limit_minimum(table_type.limit) as usize;
        match build_table(elements, size, global_instances, nfuncs) {
            Ok(function_elements) => Ok(TableInstance { function_elements, export_name, table_type }),
            Err(e) => Err(WasmError::Trap(e)),
        }
    }

    /// A table of the given slots, type and name.
    pub(crate) fn from_elements(function_elements: Vec<Option<u32>>, table_type: TableType, export_name: Option<String>) -> (r: TableInstance)
        ensures
            r.spec_elements() == function_elements@,
            r.spec_table_type() == table_type,
            r.spec_export_name() == opt_string_view(export_name),
    {
        TableInstance { function_elements, export_name, table_type }
    }

    /// The number of slots.
    pub fn len(&self) -> (r: usize)
        ensures
            r == self.spec_elements().len(),
    {
        self.function_elements.len()
    }

    /// The slot at `i`.
    pub fn get(&self, i: usize) -> (r: Option<u32>)
        requires
            i < self.spec_elements().len(),
        ensures
            r == self.spec_elements()[i as int],
    {
        self.function_elements[i]
    }

    /// The function that slot `idx` names: an empty slot is uninitialized, a
    /// slot past the table undefined.
    pub fn get_function_instance(&self, idx: u32) -> (r: WasmResult<u32>)
        ensures
            idx < self.spec_elements().len() ==> r == match self.spec_elements()[idx as int] {
                Some(f) => Ok::<u32, WasmError>(f),
                None => Err::<u32, WasmError>(WasmError::Trap(Trap::UninitializedElement)),
            },
            idx >= self.spec_elements().len() ==> r == Err::<u32, WasmError>(WasmError::Trap(Trap::UndefinedElement)),
    {
        if (idx as usize) < self.function_elements.len() {
            match self.function_elements[idx as usize] {
                Some(f) => Ok(f),
                None => Err(WasmError::Trap(Trap::UninitializedElement)),
            }
        } else {
            Err(WasmError::Trap(Trap::UndefinedElement))
        }
    }

    /// Checks that the element segments fit a table of type `table_type`, as
    /// `new` fills it.
    pub fn validate(elements: &Vec<Element>, table_type: &TableType, global_instances: &Vec<GlobalInstance>, nfuncs: usize) -> (r: WasmResult<()>)
        ensures
            match spec_table(views(elements@), elements@.len(), table_type.limit.spec_min() as nat, global_values(global_instances@), nfuncs as nat) {
                Ok(_) => r is Ok,
                Err(e) => r == Err::<(), WasmError>(WasmError::Trap(e)),
            },
    {
        let size = limit_minimum(table_type.limit) as usize;
        match build_table(elements, size, global_instances, nfuncs) {
            Ok(_) => Ok(()),
            Err(e) => Err(WasmError::Trap(e)),
        }
    }

    /// The type of the table.
    pub fn table_type(&self) -> (r: TableType)
        ensures
            r == self.spec_table_type(),
    {
        self.table_type
    }
}

impl Clone for TableInstance {
    fn clone(&self) -> (r: TableInstance)
        ensures
            r.spec_elements() == self.spec_elements(),
            r.spec_export_name() == self.spec_export_name(),
            r.spec_table_type() == self.spec_table_type(),
    {
        let function_elements = self.function_elements.clone();
        proof {
            assert(function_elements@ =~= self.function_elements@);
        }
        let export_name = match &self.export_name {
            Some(n) => Some(n.clone()),
            None => None,
        };
        TableInstance { function_elements, export_name, table_type: self.table_type }
    }
}

/// The tables of a module; only the first is used.
#[derive(Debug)]
pub struct TableInstances(Vec<TableInstance>);

impl TableInstances {
    /// The tables.
    pub closed spec fn spec_instances(&self) -> Seq<TableInstance> {
        self.0@
    }

    pub fn new(table_instances: Vec<TableInstance>) -> (r: TableInstances)
        ensures
            r.spec_instances() == table_instances@,
    {
        TableInstances(table_instances)
    }

    /// No table.
    pub fn empty() -> (r: TableInstances)
        ensures
            r.spec_instances().len() == 0,
    {
        TableInstances(Vec::new())
    }

    /// Whether the first table is exported under `name`.
    pub fn find_by_name(&self, name: &str) -> (r: bool)
        ensures
            r == (self.spec_instances().len() > 0 && self.spec_instances()[0].spec_export_name() == Some(name@)),
    {
        if self.0.len() == 0 {
            return false;
        }
        let key = name.to_owned();
        match &self.0[0].export_name {
            Some(n) => *n == key,
            None => false,
        }
    }

    /// Whether the range of sizes of the first table lies within the one that
    /// `other` asks for; the element types always agree.
    pub fn fits_table_type(&self, other: &TableType) -> (r: bool)
        ensures
            r == (self.spec_instances().len() > 0 && limit_within(self.spec_instances()[0].spec_table_type().limit, other.limit)),
    {
        if self.0.len() == 0 {
            return false;
        }
        limit_le(&self.0[0].table_type.limit, &other.limit)
    }

    /// Whether the type of the first table is greater than `other`: the
    /// element types agree, so its range of sizes strictly contains the other's.
    pub fn gt_table_type(&self, other: &TableType) -> (r: bool)
        ensures
            r == (self.spec_instances().len() > 0 && limit_greater(self.spec_instances()[0].spec_table_type().limit, other.limit)),
    {
        if self.0.len() == 0 {
            return false;
        }
        limit_gt(&self.0[0].table_type.limit, &other.limit)
    }

    /// The table at `idx`, if there is one.
    pub fn get_table_at(&self, idx: &Indice) -> (r: Option<&TableInstance>)
        ensures
            r is Some <==> idx.0 < self.spec_instances().len(),
            r matches Some(t) ==> *t == self.spec_instances()[idx.0 as int],
    {
        let i = idx.to_usize();
        if i < self.0.len() {
            Some(&self.0[i])
        } else {
            None
        }
    }

    /// Checks that the element segments of an importer fit the first table,
    /// as `link` fills it. There must be a first table.
    pub fn validate(&self, elements: &Vec<Element>, global_instances: &Vec<GlobalInstance>, nfuncs: usize) -> (r: WasmResult<()>)
        requires
            self.spec_instances().len() > 0,
        ensures
            match spec_table(views(elements@), elements@.len(), self.spec_instances()[0].spec_elements().len(), global_values(global_instances@), nfuncs as nat) {
                Ok(_) => r is Ok,
                Err(e) => r == Err::<(), WasmError>(WasmError::Trap(e)),
            },
    {
        match build_table(elements, self.0[0].len(), global_instances, nfuncs) {
            Ok(_) => Ok(()),
            Err(e) => Err(WasmError::Trap(e)),
        }
    }

    /// The table that an importing module gets of the first table: as many
    /// slots as it has, filled by the importer's element segments in order,
    /// each slot naming one of the importer's `nfuncs` functions; the type and
    /// the name are those of the first table. There must be a first table.
    pub fn link(&self, elements: &Vec<Element>, global_instances: &Vec<GlobalInstance>, nfuncs: usize) -> (r: WasmResult<TableInstance>)
        requires
            self.spec_instances().len() > 0,
        ensures
            match spec_table(views(elements@), elements@.len(), self.spec_instances()[0].spec_elements().len(), global_values(global_instances@), nfuncs as nat) {
                Ok(t) => r matches Ok(x) && x.spec_elements() == t
                    && x.spec_table_type() == self.spec_instances()[0].spec_table_type()
                    && x.spec_export_name() == self.spec_instances()[0].spec_export_name(),
                Err(e) => r == Err::<TableInstance, WasmError>(WasmError::Trap(e)),
            },
    {
        let first = &self.0[0];
        let size = first.len();
        match build_table(elements, size, global_instances, nfuncs) {
            Ok(t) => {
                let export_name = match &first.export_name {
                    Some(n) => Some(n.clone()),
                    None => None,
                };
                Ok(TableInstance { function_elements: t, export_name, table_type: first.table_type })
            },
            Err(e) => Err(WasmError::Trap(e)),
        }
    }
}

} // verus!
