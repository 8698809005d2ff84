//! The `spectest` module that the WebAssembly test suite imports from.
use vstd::prelude::*;
use crate::function::{FuncView, FunctionInstance, FunctionType};
use crate::global::{GlobalInstance, GlobalInstances, GlobalType};
use crate::memory::{Limit, MemoryInstance};
use crate::module::ExternalModule;
use crate::sec_table::{ElementType, TableType};
use crate::table::TableInstance;
use crate::value::Values;
use crate::value_type::{ValueTypes, TYPE_F32, TYPE_F64, TYPE_I32};

verus! {

/// A host function of no results with parameters `params`.
pub open spec fn printer(params: Seq<ValueTypes>) -> FuncView {
    FuncView { ty: (params, seq![]), locals: seq![], body: seq![], host: true }
}

/// A host function exported under `name` that takes `params` and gives nothing.
fn print_fn(name: &str, params: Vec<ValueTypes>) -> (r: FunctionInstance)
    ensures
        r@ == printer(params@),
        r.spec_export_name() == Some(name@),
{
    let r = FunctionInstance::new_host_fn(Some(name.to_owned()), FunctionType::new(params, Vec::new()));
    proof {
        assert(r@ =~= printer(params@));
    }
    r
}

/// The `spectest` module: the host functions `print`, `print_i32`,
/// `print_i32_f32`, `print_f64_f64`, `print_f32` and `print_f64`, which take
/// what their names say and give nothing; the memory `memory` of one to two
/// pages; the table `table` of ten to twenty empty slots; and the constant
/// globals `global_i32`, `global_f32` and `global_f64`, all three 666 (the
/// floats 666.6, by their bits).
pub fn create_spectest() -> (r: ExternalModule)
    ensures
        r.spec_functions().len() == 6,
        r.spec_functions()[0]@ == printer(seq![]) && r.spec_functions()[0].spec_export_name() == Some("print"@),
        r.spec_functions()[1]@ == printer(seq![TYPE_I32]) && r.spec_functions()[1].spec_export_name() == Some("print_i32"@),
        r.spec_functions()[2]@ == printer(seq![TYPE_I32, TYPE_F32]) && r.spec_functions()[2].spec_export_name() == Some(
            "print_i32_f32"@,
        ),
        r.spec_functions()[3]@ == printer(seq![TYPE_F64, TYPE_F64]) && r.spec_functions()[3].spec_export_name() == Some(
            "print_f64_f64"@,
        ),
        r.spec_functions()[4]@ == printer(seq![TYPE_F32]) && r.spec_functions()[4].spec_export_name() == Some("print_f32"@),
        r.spec_functions()[5]@ == printer(seq![TYPE_F64]) && r.spec_functions()[5].spec_export_name() == Some("print_f64"@),
        r.spec_function_types().len() == 0,
        r.spec_memories().len() == 1,
        r.spec_memories()[0].spec_data() == Seq::<u8>::empty(),
        r.spec_memories()[0].spec_limit() == Limit::HasUpperLimit(1, 2),
        r.spec_memories()[0].spec_surface_size() == 65536,
        r.spec_memories()[0].spec_export_name() == Some("memory"@),
        r.spec_tables().len() == 1,
        r.spec_tables()[0].spec_elements() == Seq::new(10, |i: int| None::<u32>),
        r.spec_tables()[0].spec_table_type() == (TableType { element_type: ElementType::AnyFunc, limit: Limit::HasUpperLimit(10, 20) }),
        r.spec_tables()[0].spec_export_name() == Some("table"@),
        r.spec_globals().len() == 3,
        r.spec_globals()[0].global_type == GlobalType::Const(TYPE_I32) && r.spec_globals()[0].value == Values::I32(666),
        r.spec_globals()[1].global_type == GlobalType::Const(TYPE_F32) && r.spec_globals()[1].value == Values::F32(0x4426_a666),
        r.spec_globals()[2].global_type == GlobalType::Const(TYPE_F64) && r.spec_globals()[2].value == Values::F64(
            0x4084_d4cc_cccc_cccd,
        ),
        crate::module::opt_string_view(r.spec_globals()[0].export_name) == Some("global_i32"@),
        crate::module::opt_string_view(r.spec_globals()[1].export_name) == Some("global_f32"@),
        crate::module::opt_string_view(r.spec_globals()[2].export_name) == Some("global_f64"@),
{
    let p0: Vec<ValueTypes> = Vec::new();
    let p1 = vec![TYPE_I32];
    let p2 = vec![TYPE_I32, TYPE_F32];
    let p3 = vec![TYPE_F64, TYPE_F64];
    let p4 = vec![TYPE_F32];
    let p5 = vec![TYPE_F64];
    proof {
        assert(p0@ =~= seq![]);
        assert(p1@ =~= seq![TYPE_I32]);
        assert(p2@ =~= seq![TYPE_I32, TYPE_F32]);
        assert(p3@ =~= seq![TYPE_F64, TYPE_F64]);
        assert(p4@ =~= seq![TYPE_F32]);
        assert(p5@ =~= seq![TYPE_F64]);
    }
    let mut functions: Vec<FunctionInstance> = Vec::new();
    functions.push(print_fn("print", p0));
    functions.push(print_fn("print_i32", p1));
    functions.push(print_fn("print_i32_f32", p2));
    functions.push(print_fn("print_f64_f64", p3));
    functions.push(print_fn("print_f32", p4));
    functions.push(print_fn("print_f64", p5));
    let memory = MemoryInstance::new(Vec::new(), Limit::HasUpperLimit(1, 2), Some("memory".to_owned()), &GlobalInstances::empty()).unwrap();
    let table_type = TableType::new(ElementType::AnyFunc, Limit::HasUpperLimit(10, 20));
    let table = TableInstance::new(&Vec::new(), table_type, Some("table".to_owned()), &Vec::new(), 0).unwrap();
    let mut memories: Vec<MemoryInstance> = Vec::new();
    memories.push(memory);
    let mut tables: Vec<TableInstance> = Vec::new();
    tables.push(table);
    let mut globals: Vec<GlobalInstance> = Vec::new();
    globals.push(GlobalInstance::new(GlobalType::Const(TYPE_I32), Values::I32(666), Some("global_i32".to_owned())));
    globals.push(GlobalInstance::new(GlobalType::Const(TYPE_F32), Values::F32(0x4426_a666), Some("global_f32".to_owned())));
    globals.push(GlobalInstance::new(GlobalType::Const(TYPE_F64), Values::F64(0x4084_d4cc_cccc_cccd), Some("global_f64".to_owned())));
    ExternalModule::new(functions, Vec::new(), memories, tables, globals)
}

} // verus!
