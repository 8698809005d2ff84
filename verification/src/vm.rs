//! The runtime: an instance of a module and the machine that runs its
//! functions, one step at a time.
use vstd::prelude::*;
use crate::context::{raw_u32_at, read_raw_u32};
use crate::decodable::views;
use crate::error::Trap;
use crate::function::{FunctionInstance, FunctionType};
use crate::global::{GlobalInstance, GlobalInstances, global_values};
use crate::indice::Indice;
use crate::isa::Isa;
use crate::label::{Label, LabelKind};
use crate::memory::{Limit, MemoryInstance, MemoryInstances};
use crate::module::{ExportDescriptor, ExternalModule, InternalModule, ModuleDescriptor};
use crate::stack::{Stack, StackEntry, StackView};
use crate::table::TableInstance;
use crate::value::Values;
use crate::value_type::ValueTypes;
use crate::vm_spec::{
    BinOp, Frame, LoadKind, MemState, Outcome, Program, UnOp, VmState, MAX_BODY_LEN, binary_op, binary_result,
    is_float_op, load_kind, load_value, raw_u64_at, spec_block, spec_br, spec_br_if,
    spec_br_table, spec_call, spec_call_indirect, spec_transfer, spec_run_failing_state, spec_const32, spec_const64, spec_drop, spec_end, spec_enter,
    spec_get_global, spec_get_local, spec_if, spec_instruction, spec_load, spec_loop,
    spec_memory_grow, spec_memory_size, spec_return, spec_select, spec_set_global, spec_set_local, spec_step,
    spec_store, spec_binary, spec_unary, store_bits, unary_op, unary_result, zero_entries, zero_value,
    extend32, extend64, spec_run, spec_call_with,
};

verus! {

/// Whether an exec result agrees with what the specification expects: the
/// same error, or success with the expected state.
pub open spec fn agrees(r: Result<(), Trap>, after: VmState, expected: Result<VmState, Trap>) -> bool {
    match expected {
        Ok(s) => r is Ok && after == s,
        Err(e) => r == Err::<(), Trap>(e),
    }
}

/// The first memory as the runtime sees it, if there is one.
pub open spec fn mem_state(m: MemoryInstances) -> Option<MemState> {
    if m.spec_instances().len() > 0 {
        let i = m.spec_instances()[0];
        Some(MemState { data: i.spec_data(), size: i.spec_surface_size(), limit: i.spec_limit() })
    } else {
        None
    }
}

/// Whether the memory and the globals are as they were.
pub open spec fn keeps_store(before: VmState, after: VmState) -> bool {
    after.memory == before.memory && after.globals == before.globals
}

/// The slots of the table, if there is one.
pub open spec fn table_view(t: Option<TableInstance>) -> Option<Seq<Option<u32>>> {
    match t {
        Some(t) => Some(t.spec_elements()),
        None => None,
    }
}

/// The descriptor of the first export named `name`, if there is one.
pub open spec fn find_export(exports: Seq<(Option<Seq<char>>, Seq<char>, ModuleDescriptor)>, name: Seq<char>) -> Option<ModuleDescriptor>
    decreases exports.len(),
{
    if exports.len() == 0 {
        None
    } else if exports[0].1 == name {
        Some(exports[0].2)
    } else {
        find_export(exports.drop_first(), name)
    }
}

/// The first export named `name` is the one `find_export` gives.
proof fn lemma_find_export_at(exports: Seq<(Option<Seq<char>>, Seq<char>, ModuleDescriptor)>, name: Seq<char>, i: int)
    requires
        0 <= i < exports.len(),
        exports[i].1 == name,
        forall|j: int| 0 <= j < i ==> exports[j].1 != name,
    ensures
        find_export(exports, name) == Some(exports[i].2),
    decreases exports.len(),
{
    if i > 0 {
        lemma_find_export_at(exports.drop_first(), name, i - 1);
    }
}

/// With no export named `name`, `find_export` gives none.
proof fn lemma_find_export_none(exports: Seq<(Option<Seq<char>>, Seq<char>, ModuleDescriptor)>, name: Seq<char>)
    requires
        forall|j: int| 0 <= j < exports.len() ==> exports[j].1 != name,
    ensures
        find_export(exports, name) is None,
    decreases exports.len(),
{
    if exports.len() > 0 {
        assert(exports[0].1 != name);
        assert forall|j: int| 0 <= j < exports.drop_first().len() implies exports.drop_first()[j].1 != name by {
            assert(exports.drop_first()[j] == exports[j + 1]);
        }
        lemma_find_export_none(exports.drop_first(), name);
    }
}

/// The machine before anything runs: every slot empty and no call in progress.
pub open spec fn fresh_state(s: VmState) -> VmState {
    VmState {
        stack: StackView {
            entries: Seq::new(STACK_SIZE as nat, |i: int| StackEntry::Empty),
            sp: 0,
            fp: 0,
            size: STACK_SIZE as nat,
        },
        frames: seq![],
        ..s
    }
}

/// What an invocation by name found.
#[derive(Debug, Clone, Copy, PartialEq, Eq, Structural)]
pub enum Invocation {
    /// A function, now called; it runs step by step.
    Function,
    /// A host function, with its arguments pushed, for the embedder to run.
    Host(u32),
    /// A global, with its value when the global exists.
    Global(Option<Values>),
    /// No export of that name.
    NotFound,
    /// An export of a table or a memory.
    Other,
}

/// The stack slots a module instance runs with.
pub const STACK_SIZE: usize = 65536;

/// An instance of a module together with the machine that runs it.
#[derive(Debug)]
pub struct Vm {
    functions: Vec<FunctionInstance>,
    function_types: Vec<FunctionType>,
    table: Option<TableInstance>,
    globals: GlobalInstances,
    memories: MemoryInstances,
    internal_module: InternalModule,
    stack: Stack,
    frames: Vec<Frame>,
}

/// The exec counterpart of `binary_op`.
fn binary_op_of(isa: Isa) -> (r: Option<BinOp>)
    ensures
        r == binary_op(isa),
{
    match isa {
        Isa::I32Add | Isa::I64Add => Some(BinOp::Add),
        Isa::I32Sub | Isa::I64Sub => Some(BinOp::Sub),
        Isa::I32Mul | Isa::I64Mul => Some(BinOp::Mul),
        Isa::I32DivSign | Isa::I64DivSign => Some(BinOp::DivS),
        Isa::I32DivUnsign | Isa::I64DivUnsign => Some(BinOp::DivU),
        Isa::I32RemSign | Isa::I64RemSign => Some(BinOp::RemS),
        Isa::I32RemUnsign | Isa::I64RemUnsign => Some(BinOp::RemU),
        Isa::I32And | Isa::I64And => Some(BinOp::And),
        Isa::I32Or | Isa::I64Or => Some(BinOp::Or),
        Isa::I32Xor | Isa::I64Xor => Some(BinOp::Xor),
        Isa::I32ShiftLeft | Isa::I64ShiftLeft => Some(BinOp::Shl),
        Isa::I32ShiftRIghtSign | Isa::I64ShiftRightSign => Some(BinOp::ShrS),
        Isa::I32ShiftRightUnsign | Isa::I64ShiftRightUnsign => Some(BinOp::ShrU),
        Isa::I32RotateLeft | Isa::I64RotateLeft => Some(BinOp::Rotl),
        Isa::I32RotateRight | Isa::I64RotateRight => Some(BinOp::Rotr),
        Isa::I32Equal | Isa::I64Equal => Some(BinOp::Eq),
        Isa::I32NotEqual | Isa::I64NotEqual => Some(BinOp::Ne),
        Isa::I32LessThanSign | Isa::I64LessThanSign => Some(BinOp::LtS),
        Isa::I32LessThanUnsign | Isa::I64LessThanUnSign => Some(BinOp::LtU),
        Isa::I32GreaterThanSign | Isa::I64GreaterThanSign => Some(BinOp::GtS),
        Isa::I32GreaterThanUnsign | Isa::I64GreaterThanUnSign => Some(BinOp::GtU),
        Isa::I32LessEqualSign | Isa::I64LessEqualSign => Some(BinOp::LeS),
        Isa::I32LessEqualUnsign | Isa::I64LessEqualUnSign => Some(BinOp::LeU),
        Isa::I32GreaterEqualSign | Isa::I64GreaterEqualSign => Some(BinOp::GeS),
        Isa::I32GreaterEqualUnsign | Isa::I64GreaterEqualUnSign => Some(BinOp::GeU),
        _ => None,
    }
}

/// The exec counterpart of `unary_op`.
fn unary_op_of(isa: Isa) -> (r: Option<UnOp>)
    ensures
        r == unary_op(isa),
{
    match isa {
        Isa::I32EqualZero | Isa::I64EqualZero => Some(UnOp::Eqz),
        Isa::I32CountLeadingZero | Isa::I64CountLeadingZero => Some(UnOp::Clz),
        Isa::I32CountTrailingZero | Isa::I64CountTrailingZero => Some(UnOp::Ctz),
        Isa::I32CountNonZero | Isa::I64CountNonZero => Some(UnOp::Popcnt),
        Isa::I32WrapI64 => Some(UnOp::Wrap),
        Isa::I64ExtendSignI32 => Some(UnOp::ExtendS),
        Isa::I64ExtendUnsignI32 => Some(UnOp::ExtendU),
        Isa::I32ReinterpretF32 | Isa::I64ReinterpretF64 | Isa::F32ReinterpretI32 | Isa::F64ReinterpretI64 => Some(
            UnOp::Reinterpret,
        ),
        _ => None,
    }
}

/// The exec counterpart of `load_kind`.
fn load_kind_of(isa: Isa) -> (r: Option<LoadKind>)
    ensures
        r == load_kind(isa),
{
    match isa {
        Isa::I32Load => Some(LoadKind { bits: 32, signed: true, wide: false, float: false }),
        Isa::I32Load8Sign => Some(LoadKind { bits: 8, signed: true, wide: false, float: false }),
        Isa::I32Load8Unsign => Some(LoadKind { bits: 8, signed: false, wide: false, float: false }),
        Isa::I32Load16Sign => Some(LoadKind { bits: 16, signed: true, wide: false, float: false }),
        Isa::I32Load16Unsign => Some(LoadKind { bits: 16, signed: false, wide: false, float: false }),
        Isa::I64Load => Some(LoadKind { bits: 64, signed: true, wide: true, float: false }),
        Isa::I64Load8Sign => Some(LoadKind { bits: 8, signed: true, wide: true, float: false }),
        Isa::I64Load8Unsign => Some(LoadKind { bits: 8, signed: false, wide: true, float: false }),
        Isa::I64Load16Sign => Some(LoadKind { bits: 16, signed: true, wide: true, float: false }),
        Isa::I64Load16Unsign => Some(LoadKind { bits: 16, signed: false, wide: true, float: false }),
        Isa::I64Load32Sign => Some(LoadKind { bits: 32, signed: true, wide: true, float: false }),
        Isa::I64Load32Unsign => Some(LoadKind { bits: 32, signed: false, wide: true, float: false }),
        Isa::F32Load => Some(LoadKind { bits: 32, signed: false, wide: false, float: true }),
        Isa::F64Load => Some(LoadKind { bits: 64, signed: false, wide: true, float: true }),
        _ => None,
    }
}

/// The exec counterpart of `store_bits`.
fn store_bits_of(isa: Isa) -> (r: Option<u32>)
    ensures
        r == store_bits(isa),
{
    match isa {
        Isa::I32Store | Isa::F32Store | Isa::I64Store32 => Some(32u32),
        Isa::I64Store | Isa::F64Store => Some(64u32),
        Isa::I32Store8 | Isa::I64Store8 => Some(8u32),
        Isa::I32Store16 | Isa::I64Store16 => Some(16u32),
        _ => None,
    }
}

/// The exec counterpart of `is_float_op`.
fn is_float_op_of(isa: Isa) -> (r: bool)
    ensures
        r == is_float_op(isa),
{
    match isa {
        Isa::F32Equal | Isa::F32NotEqual | Isa::F32LessThan | Isa::F32GreaterThan | Isa::F32LessEqual
        | Isa::F32GreaterEqual | Isa::F64Equal | Isa::F64NotEqual | Isa::F64LessThan | Isa::F64GreaterThan
        | Isa::F64LessEqual | Isa::F64GreaterEqual | Isa::F32Abs | Isa::F32Neg | Isa::F32Ceil | Isa::F32Floor
        | Isa::F32Trunc | Isa::F32Nearest | Isa::F32Sqrt | Isa::F32Add | Isa::F32Sub | Isa::F32Mul | Isa::F32Div
        | Isa::F32Min | Isa::F32Max | Isa::F32Copysign | Isa::F64Abs | Isa::F64Neg | Isa::F64Ceil | Isa::F64Floor
        | Isa::F64Trunc | Isa::F64Nearest | Isa::F64Sqrt | Isa::F64Add | Isa::F64Sub | Isa::F64Mul | Isa::F64Div
        | Isa::F64Min | Isa::F64Max | Isa::F64Copysign | Isa::I32TruncSignF32 | Isa::I32TruncUnsignF32
        | Isa::I32TruncSignF64 | Isa::I32TruncUnsignF64 | Isa::I64TruncSignF32 | Isa::I64TruncUnsignF32
        | Isa::I64TruncSignF64 | Isa::I64TruncUnsignF64 | Isa::F32ConvertSignI32 | Isa::F32ConvertUnsignI32
        | Isa::F32ConvertSignI64 | Isa::F32ConvertUnsignI64 | Isa::F32DemoteF64 | Isa::F64ConvertSignI32
        | Isa::F64ConvertUnsignI32 | Isa::F64ConvertSignI64 | Isa::F64ConvertUnsignI64 | Isa::F64PromoteF32 => true,
        _ => false,
    }
}

/// Computes an integer instruction of two operands.
pub fn apply_binary(op: BinOp, l: Values, r: Values) -> (res: Result<Values, Trap>)
    ensures
        res == binary_result(op, l, r),
{
    let same = match (l, r) {
        (Values::I32(_), Values::I32(_)) => true,
        (Values::I64(_), Values::I64(_)) => true,
        _ => false,
    };
    if !same {
        return Err(Trap::TypeMismatch);
    }
    match op {
        BinOp::Add => Ok(l.add(&r)),
        BinOp::Sub => Ok(l.sub(&r)),
        BinOp::Mul => Ok(l.mul(&r)),
        BinOp::DivS => l.div_s(&r),
        BinOp::DivU => l.div_u(&r),
        BinOp::RemS => l.rem_s(&r),
        BinOp::RemU => l.rem_u(&r),
        BinOp::And => Ok(l.and(&r)),
        BinOp::Or => Ok(l.or(&r)),
        BinOp::Xor => Ok(l.xor(&r)),
        BinOp::Shl => Ok(l.shift_left(&r)),
        BinOp::ShrS => Ok(l.shift_right_sign(&r)),
        BinOp::ShrU => Ok(l.shift_right_unsign(&r)),
        BinOp::Rotl => Ok(l.wasm_rotate_left(&r)),
        BinOp::Rotr => Ok(l.wasm_rotate_right(&r)),
        BinOp::Eq => Ok(l.equal(&r)),
        BinOp::Ne => Ok(l.not_equal(&r)),
        BinOp::LtS => Ok(l.less_than(&r)),
        BinOp::LtU => Ok(l.less_than_unsign(&r)),
        BinOp::GtS => Ok(l.greater_than(&r)),
        BinOp::GtU => Ok(l.greater_than_unsign(&r)),
        BinOp::LeS => Ok(l.less_than_equal(&r)),
        BinOp::LeU => Ok(l.less_than_equal_unsign(&r)),
        BinOp::GeS => Ok(l.greater_than_equal(&r)),
        BinOp::GeU => Ok(l.greater_than_equal_unsign(&r)),
    }
}

/// Computes an instruction of one operand.
pub fn apply_unary(op: UnOp, v: Values) -> (res: Result<Values, Trap>)
    ensures
        res == unary_result(op, v),
{
    match op {
        UnOp::Eqz => match v {
            Values::I32(_) | Values::I64(_) => Ok(v.equal_zero()),
            _ => Err(Trap::TypeMismatch),
        },
        UnOp::Clz => match v {
            Values::I32(_) | Values::I64(_) => Ok(v.count_leading_zero()),
            _ => Err(Trap::TypeMismatch),
        },
        UnOp::Ctz => match v {
            Values::I32(_) | Values::I64(_) => Ok(v.count_trailing_zero()),
            _ => Err(Trap::TypeMismatch),
        },
        UnOp::Popcnt => match v {
            Values::I32(_) | Values::I64(_) => Ok(v.pop_count()),
            _ => Err(Trap::TypeMismatch),
        },
        UnOp::Wrap => match v {
            Values::I64(_) => Ok(v.wrap_i64_to_i32()),
            _ => Err(Trap::TypeMismatch),
        },
        UnOp::ExtendS => match v {
            Values::I32(_) => Ok(v.extend_i32_to_i64()),
            _ => Err(Trap::TypeMismatch),
        },
        UnOp::ExtendU => match v {
            Values::I32(_) => Ok(v.extend_u32_to_i64()),
            _ => Err(Trap::TypeMismatch),
        },
        UnOp::Reinterpret => Ok(v.reinterpret()),
    }
}

/// The value a load of at most 32 bits makes of the word it read.
fn load_value32(k: LoadKind, v: u32) -> (r: Values)
    requires
        !k.wide,
        1 <= k.bits <= 32,
    ensures
        r == load_value(k, v as nat),
{
    let x = if k.signed && v & (1u32 << (k.bits - 1)) != 0 {
        v | ((!1u32) << (k.bits - 1))
    } else {
        v
    };
    assert(x == extend32(v, k.bits, k.signed));
    if k.float {
        Values::F32(x)
    } else {
        Values::I32(x as i32)
    }
}

/// The value a load of at most 64 bits into a 64-bit value makes of the word it read.
fn load_value64(k: LoadKind, v: u64) -> (r: Values)
    requires
        k.wide,
        1 <= k.bits <= 64,
    ensures
        r == load_value(k, v as nat),
{
    let x = if k.signed && v & (1u64 << ((k.bits - 1) as u64)) != 0 {
        v | ((!1u64) << ((k.bits - 1) as u64))
    } else {
        v
    };
    assert(x == extend64(v, k.bits, k.signed));
    if k.float {
        Values::F64(x)
    } else {
        Values::I64(x as i64)
    }
}

/// The eight bytes at `p`, least significant first.
pub fn read_raw_u64(body: &Vec<u8>, p: usize) -> (r: Option<u64>)
    ensures
        r == raw_u64_at(body@, p as nat),
{
    if p > body.len() || body.len() - p < 8 {
        return None;
    }
    proof {
        assert(body@.subrange(p as int, p + 8int) =~= seq![
            body@[p as int],
            body@[p + 1],
            body@[p + 2],
            body@[p + 3],
            body@[p + 4],
            body@[p + 5],
            body@[p + 6],
            body@[p + 7],
        ]);
    }
    Some((body[p] as u64) | ((body[p + 1] as u64) << 8) | ((body[p + 2] as u64) << 16) | ((body[p + 3] as u64)
        << 24) | ((body[p + 4] as u64) << 32) | ((body[p + 5] as u64) << 40) | ((body[p + 6] as u64) << 48) | ((
    body[p + 7] as u64) << 56))
}

/// The entries the declared locals start with, unless one has the unit type.
fn zero_entries_of(types: &Vec<ValueTypes>) -> (r: Option<Vec<StackEntry>>)
    ensures
        match zero_entries(types@) {
            Some(es) => r matches Some(v) && v@ == es,
            None => r is None,
        },
{
    let mut out: Vec<StackEntry> = Vec::new();
    let mut i: usize = 0;
    while i < types.len()
        invariant
            i <= types@.len(),
            forall|j: int| 0 <= j < i ==> types@[j] != ValueTypes::Unit,
            out@ == types@.subrange(0, i as int).map_values(|t: ValueTypes| StackEntry::Value(zero_value(t))),
        decreases types@.len() - i,
    {
        let v = match types[i] {
            ValueTypes::Unit => return None,
            ValueTypes::I64 => Values::I64(0),
            ValueTypes::F32 => Values::F32(0),
            ValueTypes::F64 => Values::F64(0),
            ValueTypes::I32 => Values::I32(0),
        };
        out.push(StackEntry::Value(v));
        i = i + 1;
        proof {
            assert(out@ =~= types@.subrange(0, i as int).map_values(|t: ValueTypes| StackEntry::Value(zero_value(t))));
        }
    }
    proof {
        assert(types@.subrange(0, types@.len() as int) =~= types@);
    }
    Some(out)
}

impl Vm {
    /// What stays fixed while the module runs.
    pub closed spec fn program(&self) -> Program {
        Program {
            functions: views(self.functions@),
            types: views(self.function_types@),
            table: table_view(self.table),
        }
    }

    /// The state of the machine.
    pub closed spec fn state(&self) -> VmState {
        VmState {
            stack: self.stack@,
            frames: self.frames@,
            globals: global_values(self.globals.0@),
            memory: mem_state(self.memories),
        }
    }

    /// The function instances, in index order.
    pub closed spec fn spec_function_instances(&self) -> Seq<FunctionInstance> {
        self.functions@
    }

    /// The table, if there is one.
    pub closed spec fn spec_table(&self) -> Option<TableInstance> {
        self.table
    }

    /// The memories.
    pub closed spec fn spec_memory_instances(&self) -> Seq<MemoryInstance> {
        self.memories.spec_instances()
    }

    /// The globals.
    pub closed spec fn spec_global_instances(&self) -> Seq<GlobalInstance> {
        self.globals.0@
    }

    /// The exports and the start function of the module.
    pub closed spec fn spec_internal_module(&self) -> InternalModule {
        self.internal_module
    }

    /// The stack keeps its shape and every body fits the bound.
    pub closed spec fn wf(&self) -> bool {
        &&& self.stack@.wf()
        &&& self.program().wf()
    }

    /// The running call is in function `fi`, at position `pc` of its body.
    pub closed spec fn running(&self, fi: usize, pc: usize) -> bool {
        &&& self.frames@.len() > 0
        &&& self.frames@.last().function == fi
        &&& self.frames@.last().ptr == pc
        &&& fi < self.functions@.len()
        &&& pc < self.functions@[fi as int]@.body.len()
    }

    /// Moves the running call to position `q`.
    fn goto(&mut self, q: usize)
        requires
            old(self).frames@.len() > 0,
        ensures
            final(self).state() == old(self).state().at(q as nat),
            final(self).program() == old(self).program(),
            final(self).wf() == old(self).wf(),
            final(self).internal_module == old(self).internal_module,
    {
        let last = self.frames.len() - 1;
        let mut f = self.frames[last];
        f.ptr = q;
        self.frames.set(last, f);
    }

    /// The word at `q` of the body of function `fi`.
    fn imm32(&self, fi: usize, q: usize) -> (r: Option<u32>)
        requires
            fi < self.functions@.len(),
        ensures
            r == raw_u32_at(self.program().functions[fi as int].body, q as nat),
    {
        read_raw_u32(self.functions[fi].body(), q)
    }

    /// The byte at `q` of the body of function `fi`, if there is one.
    fn byte_at(&self, fi: usize, q: usize) -> (r: Option<u8>)
        requires
            fi < self.functions@.len(),
        ensures
            q < self.program().functions[fi as int].body.len() ==> r == Some(self.program().functions[fi as int].body[q as int]),
            q >= self.program().functions[fi as int].body.len() ==> r is None,
    {
        let body = self.functions[fi].body();
        if q < body.len() {
            Some(body[q])
        } else {
            None
        }
    }

    /// `block`.
    fn exec_block(&mut self, fi: usize, pc: usize) -> (r: Result<(), Trap>)
        requires
            old(self).wf(),
            old(self).running(fi, pc),
        ensures
            final(self).wf(),
            r is Err ==> keeps_store(old(self).state(), final(self).state()),
            final(self).program() == old(self).program(),
            final(self).internal_module == old(self).internal_module,
            agrees(r, final(self).state(), spec_block(old(self).state(), old(self).program().functions[fi as int].body, pc as nat)),
    {
        proof {
            assert(self.program().functions[fi as int].body.len() < MAX_BODY_LEN);
        }
        let size = match self.imm32(fi, pc + 1) {
            Some(x) => x,
            None => return Err(Trap::UnexpectedEnd),
        };
        let code = match self.byte_at(fi, pc + 5) {
            Some(b) => b,
            None => return Err(Trap::UnexpectedEnd),
        };
        let bt = match ValueTypes::try_from_code(code) {
            Some(t) => t,
            None => return Err(Trap::Unknown),
        };
        if (pc as u64) + (size as u64) > 0xffff_ffff {
            return Err(Trap::Unknown);
        }
        let continuation = (pc as u32) + size;
        match self.stack.push(StackEntry::Label(Label { source_instruction: LabelKind::Block, return_type: bt, continuation })) {
            Ok(()) => {},
            Err(e) => return Err(e),
        }
        self.goto(pc + 6);
        Ok(())
    }

    /// `loop`.
    fn exec_loop(&mut self, fi: usize, pc: usize) -> (r: Result<(), Trap>)
        requires
            old(self).wf(),
            old(self).running(fi, pc),
        ensures
            final(self).wf(),
            r is Err ==> keeps_store(old(self).state(), final(self).state()),
            final(self).program() == old(self).program(),
            final(self).internal_module == old(self).internal_module,
            agrees(r, final(self).state(), spec_loop(old(self).state(), old(self).program().functions[fi as int].body, pc as nat)),
    {
        proof {
            assert(self.program().functions[fi as int].body.len() < MAX_BODY_LEN);
        }
        let code = match self.byte_at(fi, pc + 1) {
            Some(b) => b,
            None => return Err(Trap::UnexpectedEnd),
        };
        let bt = match ValueTypes::try_from_code(code) {
            Some(t) => t,
            None => return Err(Trap::Unknown),
        };
        match self.stack.push(StackEntry::Label(Label { source_instruction: LabelKind::Loop, return_type: bt, continuation: pc as u32 })) {
            Ok(()) => {},
            Err(e) => return Err(e),
        }
        self.goto(pc + 2);
        Ok(())
    }

    /// `if`.
    fn exec_if(&mut self, fi: usize, pc: usize) -> (r: Result<(), Trap>)
        requires
            old(self).wf(),
            old(self).running(fi, pc),
        ensures
            final(self).wf(),
            r is Err ==> keeps_store(old(self).state(), final(self).state()),
            final(self).program() == old(self).program(),
            final(self).internal_module == old(self).internal_module,
            agrees(r, final(self).state(), spec_if(old(self).state(), old(self).program().functions[fi as int].body, pc as nat)),
    {
        proof {
            assert(self.program().functions[fi as int].body.len() < MAX_BODY_LEN);
        }
        let (if_size, else_size) = match (self.imm32(fi, pc + 1), self.imm32(fi, pc + 5)) {
            (Some(a), Some(b)) => (a, b),
            _ => return Err(Trap::UnexpectedEnd),
        };
        let code = match self.byte_at(fi, pc + 9) {
            Some(b) => b,
            None => return Err(Trap::UnexpectedEnd),
        };
        let bt = match ValueTypes::try_from_code(code) {
            Some(t) => t,
            None => return Err(Trap::Unknown),
        };
        if (pc as u64) + (if_size as u64) + (else_size as u64) > 0xffff_ffff {
            return Err(Trap::Unknown);
        }
        let continuation = (pc as u32) + if_size + else_size;
        let c = match self.stack.pop_i32() {
            Ok(c) => c,
            Err(e) => return Err(e),
        };
        if c != 0 {
            match self.stack.push(StackEntry::Label(Label { source_instruction: LabelKind::If, return_type: bt, continuation })) {
                Ok(()) => {},
                Err(e) => return Err(e),
            }
            self.goto(pc + 10);
            Ok(())
        } else {
            match self.stack.push(StackEntry::Label(Label { source_instruction: LabelKind::Else, return_type: bt, continuation })) {
                Ok(()) => {},
                Err(e) => return Err(e),
            }
            let start_of_else = pc + (if_size as usize);
            if else_size > 0 {
                self.goto(start_of_else);
                Ok(())
            } else if start_of_else >= 1 {
                self.goto(start_of_else - 1);
                Ok(())
            } else {
                Err(Trap::Unknown)
            }
        }
    }

    /// `else` and `end`.
    fn exec_end(&mut self, fi: usize, pc: usize) -> (r: Result<(), Trap>)
        requires
            old(self).wf(),
            old(self).running(fi, pc),
        ensures
            final(self).wf(),
            r is Err ==> keeps_store(old(self).state(), final(self).state()),
            final(self).program() == old(self).program(),
            final(self).internal_module == old(self).internal_module,
            agrees(r, final(self).state(), spec_end(old(self).state(), old(self).program().functions[fi as int].body, pc as nat)),
    {
        proof {
            assert(self.program().functions[fi as int].body.len() < MAX_BODY_LEN);
        }
        let len = self.functions[fi].get_expressions_count();
        if pc + 1 >= len {
            self.goto(pc + 1);
            return Ok(());
        }
        let buf = self.stack.pop_until_label();
        let l = match self.stack.pop_label() {
            Ok(l) => l,
            Err(e) => return Err(e),
        };
        match self.stack.push_entries(&buf) {
            Ok(()) => {},
            Err(e) => return Err(e),
        }
        let next = match l.source_instruction {
            LabelKind::If => l.continuation as usize,
            _ => pc + 1,
        };
        self.goto(next);
        Ok(())
    }

    /// A branch to the label `depth` levels out.
    fn exec_br(&mut self, depth: u32) -> (r: Result<(), Trap>)
        requires
            old(self).wf(),
            old(self).frames@.len() > 0,
        ensures
            final(self).wf(),
            r is Err ==> keeps_store(old(self).state(), final(self).state()),
            final(self).program() == old(self).program(),
            final(self).internal_module == old(self).internal_module,
            agrees(r, final(self).state(), spec_br(old(self).state(), depth as nat)),
    {
        let c = match self.stack.jump_to_label(depth) {
            Ok(c) => c,
            Err(e) => return Err(e),
        };
        self.goto(c as usize);
        Ok(())
    }

    /// `br_if`.
    fn exec_br_if(&mut self, fi: usize, pc: usize) -> (r: Result<(), Trap>)
        requires
            old(self).wf(),
            old(self).running(fi, pc),
        ensures
            final(self).wf(),
            r is Err ==> keeps_store(old(self).state(), final(self).state()),
            final(self).program() == old(self).program(),
            final(self).internal_module == old(self).internal_module,
            agrees(r, final(self).state(), spec_br_if(old(self).state(), old(self).program().functions[fi as int].body, pc as nat)),
    {
        proof {
            assert(self.program().functions[fi as int].body.len() < MAX_BODY_LEN);
        }
        let depth = match self.imm32(fi, pc + 1) {
            Some(x) => x,
            None => return Err(Trap::UnexpectedEnd),
        };
        let c = match self.stack.pop_i32() {
            Ok(c) => c,
            Err(e) => return Err(e),
        };
        if c != 0 {
            self.exec_br(depth)
        } else {
            self.goto(pc + 5);
            Ok(())
        }
    }

    /// `br_table`.
    fn exec_br_table(&mut self, fi: usize, pc: usize) -> (r: Result<(), Trap>)
        requires
            old(self).wf(),
            old(self).running(fi, pc),
        ensures
            final(self).wf(),
            r is Err ==> keeps_store(old(self).state(), final(self).state()),
            final(self).program() == old(self).program(),
            final(self).internal_module == old(self).internal_module,
            agrees(r, final(self).state(), spec_br_table(old(self).state(), old(self).program().functions[fi as int].body, pc as nat)),
    {
        proof {
            assert(self.program().functions[fi as int].body.len() < MAX_BODY_LEN);
        }
        let n = match self.imm32(fi, pc + 1) {
            Some(x) => x,
            None => return Err(Trap::UnexpectedEnd),
        };
        let i = match self.stack.pop_i32() {
            Ok(i) => i,
            Err(e) => return Err(e),
        };
        let q: u64 = if i >= 0 && (i as u32) < n {
            (pc as u64) + 5 + 4 * (i as u64)
        } else {
            (pc as u64) + 5 + 4 * (n as u64)
        };
        let len = self.functions[fi].get_expressions_count();
        if q + 4 > len as u64 {
            return Err(Trap::UnexpectedEnd);
        }
        let depth = match self.imm32(fi, q as usize) {
            Some(x) => x,
            None => return Err(Trap::UnexpectedEnd),
        };
        self.exec_br(depth)
    }

    /// Enters the function `idx`.
    fn exec_enter(&mut self, idx: usize) -> (r: Result<(), Trap>)
        requires
            old(self).wf(),
            idx < old(self).functions@.len(),
        ensures
            final(self).wf(),
            r is Err ==> keeps_store(old(self).state(), final(self).state()),
            final(self).program() == old(self).program(),
            final(self).internal_module == old(self).internal_module,
            agrees(r, final(self).state(), spec_enter(old(self).program(), old(self).state(), idx as nat)),
    {
        let arity = self.functions[idx].function_type_ref().parameters().len();
        let old_fp = self.stack.frame_ptr();
        let args = match self.stack.pop_n(arity) {
            Ok(a) => a,
            Err(e) => return Err(e),
        };
        let zeros = match zero_entries_of(self.functions[idx].local_types()) {
            Some(z) => z,
            None => return Err(Trap::Unknown),
        };
        let mut list: Vec<StackEntry> = Vec::new();
        let mut k: usize = zeros.len();
        while k > 0
            invariant
                k <= zeros@.len(),
                list@ == zeros@.reverse().subrange(0, (zeros@.len() - k) as int),
            decreases k,
        {
            k = k - 1;
            list.push(zeros[k]);
            proof {
                assert(list@ =~= zeros@.reverse().subrange(0, (zeros@.len() - k) as int));
            }
        }
        let mut j: usize = 0;
        while j < args.len()
            invariant
                j <= args@.len(),
                list@ == zeros@.reverse() + args@.subrange(0, j as int),
            decreases args@.len() - j,
        {
            list.push(args[j]);
            j = j + 1;
            proof {
                assert(list@ =~= zeros@.reverse() + args@.subrange(0, j as int));
            }
        }
        proof {
            assert(args@.subrange(0, args@.len() as int) =~= args@);
        }
        let sp = self.stack.stack_ptr();
        self.stack.set_frame_ptr(sp);
        match self.stack.push_entries(&list) {
            Ok(()) => {},
            Err(e) => return Err(e),
        }
        let ret = if self.functions[idx].function_type_ref().return_types().len() > 0 {
            self.functions[idx].function_type_ref().return_types()[0]
        } else {
            ValueTypes::Unit
        };
        let end = self.functions[idx].get_expressions_count() as u32;
        match self.stack.push(StackEntry::Label(Label { source_instruction: LabelKind::Frame, return_type: ret, continuation: end })) {
            Ok(()) => {},
            Err(e) => return Err(e),
        }
        self.frames.push(Frame { function: idx, ptr: 0, prev_frame_ptr: old_fp });
        Ok(())
    }

    /// Hands a call of function `idx` over: a host function to the embedder,
    /// another one into a new frame.
    fn exec_transfer(&mut self, idx: usize) -> (r: Result<Outcome, Trap>)
        requires
            old(self).wf(),
            idx < old(self).functions@.len(),
        ensures
            final(self).wf(),
            r is Err ==> keeps_store(old(self).state(), final(self).state()),
            final(self).program() == old(self).program(),
            final(self).internal_module == old(self).internal_module,
            match spec_transfer(old(self).program(), old(self).state(), idx as nat) {
                Ok((o, s)) => r == Ok::<Outcome, Trap>(o) && final(self).state() == s,
                Err(e) => r == Err::<Outcome, Trap>(e),
            },
    {
        if self.functions[idx].is_host() {
            return Ok(Outcome::Host(idx as u32));
        }
        match self.exec_enter(idx) {
            Ok(()) => Ok(Outcome::Continue),
            Err(e) => Err(e),
        }
    }

    /// `call`.
    fn exec_call(&mut self, fi: usize, pc: usize) -> (r: Result<Outcome, Trap>)
        requires
            old(self).wf(),
            old(self).running(fi, pc),
        ensures
            final(self).wf(),
            r is Err ==> keeps_store(old(self).state(), final(self).state()),
            final(self).program() == old(self).program(),
            final(self).internal_module == old(self).internal_module,
            match spec_call(old(self).program(), old(self).state(), old(self).program().functions[fi as int].body, pc as nat) {
                Ok((o, s)) => r == Ok::<Outcome, Trap>(o) && final(self).state() == s,
                Err(e) => r == Err::<Outcome, Trap>(e),
            },
    {
        proof {
            assert(self.program().functions[fi as int].body.len() < MAX_BODY_LEN);
        }
        let idx = match self.imm32(fi, pc + 1) {
            Some(x) => x,
            None => return Err(Trap::UnexpectedEnd),
        };
        if (idx as usize) >= self.functions.len() {
            return Err(Trap::UnexpectedEnd);
        }
        self.goto(pc + 5);
        self.exec_transfer(idx as usize)
    }

    /// `call_indirect`.
    fn exec_call_indirect(&mut self, fi: usize, pc: usize) -> (r: Result<Outcome, Trap>)
        requires
            old(self).wf(),
            old(self).running(fi, pc),
        ensures
            final(self).wf(),
            r is Err ==> keeps_store(old(self).state(), final(self).state()),
            final(self).program() == old(self).program(),
            final(self).internal_module == old(self).internal_module,
            match spec_call_indirect(old(self).program(), old(self).state(), old(self).program().functions[fi as int].body, pc as nat) {
                Ok((o, s)) => r == Ok::<Outcome, Trap>(o) && final(self).state() == s,
                Err(e) => r == Err::<Outcome, Trap>(e),
            },
    {
        proof {
            assert(self.program().functions[fi as int].body.len() < MAX_BODY_LEN);
        }
        let ti = match self.imm32(fi, pc + 1) {
            Some(x) => x,
            None => return Err(Trap::UnexpectedEnd),
        };
        let len = match &self.table {
            Some(t) => t.len(),
            None => return Err(Trap::UnexpectedEnd),
        };
        let i = match self.stack.pop_i32() {
            Ok(i) => i,
            Err(e) => return Err(e),
        };
        if i > (len as i32) || (i as u32) as usize >= len {
            return Err(Trap::UndefinedElement);
        }
        let element = match &self.table {
            Some(t) => t.get((i as u32) as usize),
            None => return Err(Trap::UnexpectedEnd),
        };
        let f = match element {
            Some(f) => f,
            None => return Err(Trap::UninitializedElement),
        };
        if (f as usize) >= self.functions.len() || (ti as usize) >= self.function_types.len() {
            return Err(Trap::UnexpectedEnd);
        }
        if !self.functions[f as usize].function_type_ref().is_same(&self.function_types[ti as usize]) {
            return Err(Trap::IndirectCallTypeMismatch);
        }
        self.goto(pc + 5);
        self.exec_transfer(f as usize)
    }

    /// `drop`.
    fn exec_drop(&mut self, fi: usize, pc: usize) -> (r: Result<(), Trap>)
        requires
            old(self).wf(),
            old(self).running(fi, pc),
        ensures
            final(self).wf(),
            r is Err ==> keeps_store(old(self).state(), final(self).state()),
            final(self).program() == old(self).program(),
            final(self).internal_module == old(self).internal_module,
            agrees(r, final(self).state(), spec_drop(old(self).state(), pc as nat)),
    {
        proof {
            assert(self.program().functions[fi as int].body.len() < MAX_BODY_LEN);
        }
        match self.stack.pop_value() {
            Ok(_) => {},
            Err(e) => return Err(e),
        }
        self.goto(pc + 1);
        Ok(())
    }

    /// `select`.
    fn exec_select(&mut self, fi: usize, pc: usize) -> (r: Result<(), Trap>)
        requires
            old(self).wf(),
            old(self).running(fi, pc),
        ensures
            final(self).wf(),
            r is Err ==> keeps_store(old(self).state(), final(self).state()),
            final(self).program() == old(self).program(),
            final(self).internal_module == old(self).internal_module,
            agrees(r, final(self).state(), spec_select(old(self).state(), pc as nat)),
    {
        proof {
            assert(self.program().functions[fi as int].body.len() < MAX_BODY_LEN);
        }
        let c = match self.stack.pop_i32() {
            Ok(c) => c,
            Err(e) => return Err(e),
        };
        let f = match self.stack.pop_value() {
            Ok(v) => v,
            Err(e) => return Err(e),
        };
        let t = match self.stack.pop_value() {
            Ok(v) => v,
            Err(e) => return Err(e),
        };
        match self.stack.push(StackEntry::Value(if c != 0 { t } else { f })) {
            Ok(()) => {},
            Err(e) => return Err(e),
        }
        self.goto(pc + 1);
        Ok(())
    }

    /// `local.get`.
    fn get_local(&mut self, fi: usize, pc: usize) -> (r: Result<(), Trap>)
        requires
            old(self).wf(),
            old(self).running(fi, pc),
        ensures
            final(self).wf(),
            r is Err ==> keeps_store(old(self).state(), final(self).state()),
            final(self).program() == old(self).program(),
            final(self).internal_module == old(self).internal_module,
            agrees(r, final(self).state(), spec_get_local(old(self).state(), old(self).program().functions[fi as int].body, pc as nat)),
    {
        proof {
            assert(self.program().functions[fi as int].body.len() < MAX_BODY_LEN);
        }
        let idx = match self.imm32(fi, pc + 1) {
            Some(x) => x,
            None => return Err(Trap::UnexpectedEnd),
        };
        let fp = self.stack.frame_ptr();
        let size = self.stack.stack_size();
        if fp >= size || (idx as usize) >= size - fp {
            return Err(Trap::UnexpectedEnd);
        }
        let e = match self.stack.get(fp + idx as usize) {
            Some(e) => e,
            None => return Err(Trap::UnexpectedEnd),
        };
        match self.stack.push(e) {
            Ok(()) => {},
            Err(e) => return Err(e),
        }
        self.goto(pc + 5);
        Ok(())
    }

    /// `local.set` and, with `tee`, `local.tee`.
    fn set_local(&mut self, fi: usize, pc: usize, tee: bool) -> (r: Result<(), Trap>)
        requires
            old(self).wf(),
            old(self).running(fi, pc),
        ensures
            final(self).wf(),
            r is Err ==> keeps_store(old(self).state(), final(self).state()),
            final(self).program() == old(self).program(),
            final(self).internal_module == old(self).internal_module,
            agrees(r, final(self).state(), spec_set_local(old(self).state(), old(self).program().functions[fi as int].body, pc as nat, tee)),
    {
        proof {
            assert(self.program().functions[fi as int].body.len() < MAX_BODY_LEN);
        }
        let idx = match self.imm32(fi, pc + 1) {
            Some(x) => x,
            None => return Err(Trap::UnexpectedEnd),
        };
        let v = match self.stack.pop() {
            Ok(v) => v,
            Err(e) => return Err(e),
        };
        if tee {
            match self.stack.push(v) {
                Ok(()) => {},
                Err(e) => return Err(e),
            }
        }
        let fp = self.stack.frame_ptr();
        let size = self.stack.stack_size();
        if fp >= size || (idx as usize) >= size - fp {
            return Err(Trap::StackOverflow);
        }
        match self.stack.set(fp + idx as usize, v) {
            Ok(()) => {},
            Err(e) => return Err(e),
        }
        self.goto(pc + 5);
        Ok(())
    }

    /// `global.get`.
    fn get_global(&mut self, fi: usize, pc: usize) -> (r: Result<(), Trap>)
        requires
            old(self).wf(),
            old(self).running(fi, pc),
        ensures
            final(self).wf(),
            r is Err ==> keeps_store(old(self).state(), final(self).state()),
            final(self).program() == old(self).program(),
            final(self).internal_module == old(self).internal_module,
            agrees(r, final(self).state(), spec_get_global(old(self).state(), old(self).program().functions[fi as int].body, pc as nat)),
    {
        proof {
            assert(self.program().functions[fi as int].body.len() < MAX_BODY_LEN);
        }
        let idx = match self.imm32(fi, pc + 1) {
            Some(x) => x,
            None => return Err(Trap::UnexpectedEnd),
        };
        let v = match self.globals.get_global(&Indice(idx)) {
            Ok(v) => v,
            Err(e) => return Err(e),
        };
        match self.stack.push(StackEntry::Value(v)) {
            Ok(()) => {},
            Err(e) => return Err(e),
        }
        self.goto(pc + 5);
        Ok(())
    }

    /// `global.set`.
    fn set_global(&mut self, fi: usize, pc: usize) -> (r: Result<(), Trap>)
        requires
            old(self).wf(),
            old(self).running(fi, pc),
        ensures
            final(self).wf(),
            r is Err ==> keeps_store(old(self).state(), final(self).state()),
            final(self).program() == old(self).program(),
            final(self).internal_module == old(self).internal_module,
            agrees(r, final(self).state(), spec_set_global(old(self).state(), old(self).program().functions[fi as int].body, pc as nat)),
    {
        proof {
            assert(self.program().functions[fi as int].body.len() < MAX_BODY_LEN);
        }
        let idx = match self.imm32(fi, pc + 1) {
            Some(x) => x,
            None => return Err(Trap::UnexpectedEnd),
        };
        let v = match self.stack.pop_value() {
            Ok(v) => v,
            Err(e) => return Err(e),
        };
        let ghost before = global_values(self.globals.0@);
        self.globals.set_global(&Indice(idx), v);
        proof {
            let after = global_values(self.globals.0@);
            if idx < before.len() {
                assert(after =~= before.update(idx as int, v));
            } else {
                assert(after =~= before);
            }
        }
        self.goto(pc + 5);
        Ok(())
    }

    /// The range `[ea, end)` that an access of `bytes` bytes at `offset` from
    /// `i` covers, unless it leaves 32 bits or the first memory.
    fn access_range(&self, i: i32, offset: u32, bytes: u32) -> (r: Result<(u32, u32), Trap>)
        requires
            self.memories.spec_instances().len() > 0,
        ensures
            match crate::vm_spec::effective_range(i, offset, bytes as nat, self.memories.spec_instances()[0].spec_surface_size()) {
                Ok((ea, end)) => r == Ok::<(u32, u32), Trap>((ea as u32, end as u32)),
                Err(e) => r == Err::<(u32, u32), Trap>(e),
            },
    {
        let ea: u64 = ((i as u32) as u64) + (offset as u64);
        if ea > 0xffff_ffff || ea + (bytes as u64) > 0xffff_ffff {
            return Err(Trap::MemoryAccessOutOfBounds);
        }
        let end = (ea + bytes as u64) as u32;
        if self.memories.data_size_small_than(end) {
            return Err(Trap::MemoryAccessOutOfBounds);
        }
        Ok((ea as u32, end))
    }

    /// A load.
    fn exec_load(&mut self, fi: usize, pc: usize, k: LoadKind) -> (r: Result<(), Trap>)
        requires
            old(self).wf(),
            old(self).running(fi, pc),
            k == load_kind(crate::isa::spec_isa_from(old(self).program().functions[fi as int].body[pc as int]))->Some_0,
            load_kind(crate::isa::spec_isa_from(old(self).program().functions[fi as int].body[pc as int])) is Some,
        ensures
            final(self).wf(),
            r is Err ==> keeps_store(old(self).state(), final(self).state()),
            final(self).program() == old(self).program(),
            final(self).internal_module == old(self).internal_module,
            agrees(r, final(self).state(), spec_load(old(self).state(), old(self).program().functions[fi as int].body, pc as nat, k)),
    {
        proof {
            assert(self.program().functions[fi as int].body.len() < MAX_BODY_LEN);
        }
        let offset = match (self.imm32(fi, pc + 1), self.imm32(fi, pc + 5)) {
            (Some(_), Some(o)) => o,
            _ => return Err(Trap::UnexpectedEnd),
        };
        if self.memories.len() == 0 {
            return Err(Trap::Notfound);
        }
        let i = match self.stack.pop_i32() {
            Ok(i) => i,
            Err(e) => return Err(e),
        };
        let (ea, end) = match self.access_range(i, offset, k.bits / 8) {
            Ok(x) => x,
            Err(e) => return Err(e),
        };
        let v = if k.wide {
            let raw = self.memories.load_data_64(ea, end);
            load_value64(k, raw)
        } else {
            let raw = self.memories.load_data_32(ea, end);
            load_value32(k, raw)
        };
        match self.stack.push(StackEntry::Value(v)) {
            Ok(()) => {},
            Err(e) => return Err(e),
        }
        self.goto(pc + 9);
        Ok(())
    }

    /// A store.
    fn exec_store(&mut self, fi: usize, pc: usize, bits: u32) -> (r: Result<(), Trap>)
        requires
            old(self).wf(),
            old(self).running(fi, pc),
            bits == 8 || bits == 16 || bits == 32 || bits == 64,
        ensures
            final(self).wf(),
            r is Err ==> keeps_store(old(self).state(), final(self).state()),
            final(self).program() == old(self).program(),
            final(self).internal_module == old(self).internal_module,
            agrees(r, final(self).state(), spec_store(old(self).state(), old(self).program().functions[fi as int].body, pc as nat, bits)),
    {
        proof {
            assert(self.program().functions[fi as int].body.len() < MAX_BODY_LEN);
        }
        let offset = match (self.imm32(fi, pc + 1), self.imm32(fi, pc + 5)) {
            (Some(_), Some(o)) => o,
            _ => return Err(Trap::UnexpectedEnd),
        };
        if self.memories.len() == 0 {
            return Err(Trap::Notfound);
        }
        let c = match self.stack.pop_value() {
            Ok(v) => v,
            Err(e) => return Err(e),
        };
        let i = match self.stack.pop_i32() {
            Ok(i) => i,
            Err(e) => return Err(e),
        };
        let (ea, end) = match self.access_range(i, offset, bits / 8) {
            Ok(x) => x,
            Err(e) => return Err(e),
        };
        let width: u32 = match c {
            Values::I32(_) | Values::F32(_) => 4,
            Values::I64(_) | Values::F64(_) => 8,
        };
        if end - ea > width {
            return Err(Trap::TypeMismatch);
        }
        self.memories.store_data(ea, end, &c);
        self.goto(pc + 9);
        Ok(())
    }

    /// `memory.size`.
    fn exec_memory_size(&mut self, fi: usize, pc: usize) -> (r: Result<(), Trap>)
        requires
            old(self).wf(),
            old(self).running(fi, pc),
        ensures
            final(self).wf(),
            r is Err ==> keeps_store(old(self).state(), final(self).state()),
            final(self).program() == old(self).program(),
            final(self).internal_module == old(self).internal_module,
            agrees(r, final(self).state(), spec_memory_size(old(self).state(), pc as nat)),
    {
        proof {
            assert(self.program().functions[fi as int].body.len() < MAX_BODY_LEN);
        }
        if self.memories.len() == 0 {
            return Err(Trap::Notfound);
        }
        let pages = self.memories.size_by_pages();
        match self.stack.push(StackEntry::Value(Values::I32(pages as i32))) {
            Ok(()) => {},
            Err(e) => return Err(e),
        }
        self.goto(pc + 1);
        Ok(())
    }

    /// `memory.grow`.
    fn exec_memory_grow(&mut self, fi: usize, pc: usize) -> (r: Result<(), Trap>)
        requires
            old(self).wf(),
            old(self).running(fi, pc),
        ensures
            final(self).wf(),
            r is Err ==> keeps_store(old(self).state(), final(self).state()),
            final(self).program() == old(self).program(),
            final(self).internal_module == old(self).internal_module,
            agrees(r, final(self).state(), spec_memory_grow(old(self).state(), pc as nat)),
    {
        proof {
            assert(self.program().functions[fi as int].body.len() < MAX_BODY_LEN);
        }
        if self.memories.len() == 0 {
            return Err(Trap::Notfound);
        }
        let i = match self.stack.pop_i32() {
            Ok(i) => i,
            Err(e) => return Err(e),
        };
        let n = i as u32;
        let pages = self.memories.size_by_pages();
        let overflows = match self.memories.first_limit() {
            Limit::HasUpperLimit(_, _) => (pages as u64) + (n as u64) > 0xffff_ffff,
            Limit::NoUpperLimit(_) => false,
        };
        let grown = if overflows {
            false
        } else {
            match self.memories.memory_grow(n) {
                Ok(()) => true,
                Err(_) => false,
            }
        };
        let result: i32 = if grown { pages as i32 } else { -1 };
        match self.stack.push(StackEntry::Value(Values::I32(result))) {
            Ok(()) => {},
            Err(e) => return Err(e),
        }
        self.goto(pc + 1);
        Ok(())
    }

    /// A constant of 32 bits.
    fn exec_const32(&mut self, fi: usize, pc: usize, float: bool) -> (r: Result<(), Trap>)
        requires
            old(self).wf(),
            old(self).running(fi, pc),
        ensures
            final(self).wf(),
            r is Err ==> keeps_store(old(self).state(), final(self).state()),
            final(self).program() == old(self).program(),
            final(self).internal_module == old(self).internal_module,
            agrees(r, final(self).state(), spec_const32(old(self).state(), old(self).program().functions[fi as int].body, pc as nat, float)),
    {
        proof {
            assert(self.program().functions[fi as int].body.len() < MAX_BODY_LEN);
        }
        let raw = match self.imm32(fi, pc + 1) {
            Some(x) => x,
            None => return Err(Trap::UnexpectedEnd),
        };
        let v = if float { Values::F32(raw) } else { Values::I32(raw as i32) };
        match self.stack.push(StackEntry::Value(v)) {
            Ok(()) => {},
            Err(e) => return Err(e),
        }
        self.goto(pc + 5);
        Ok(())
    }

    /// A constant of 64 bits.
    fn exec_const64(&mut self, fi: usize, pc: usize, float: bool) -> (r: Result<(), Trap>)
        requires
            old(self).wf(),
            old(self).running(fi, pc),
        ensures
            final(self).wf(),
            r is Err ==> keeps_store(old(self).state(), final(self).state()),
            final(self).program() == old(self).program(),
            final(self).internal_module == old(self).internal_module,
            agrees(r, final(self).state(), spec_const64(old(self).state(), old(self).program().functions[fi as int].body, pc as nat, float)),
    {
        proof {
            assert(self.program().functions[fi as int].body.len() < MAX_BODY_LEN);
        }
        let raw = match read_raw_u64(self.functions[fi].body(), pc + 1) {
            Some(x) => x,
            None => return Err(Trap::UnexpectedEnd),
        };
        let v = if float { Values::F64(raw) } else { Values::I64(raw as i64) };
        match self.stack.push(StackEntry::Value(v)) {
            Ok(()) => {},
            Err(e) => return Err(e),
        }
        self.goto(pc + 9);
        Ok(())
    }

    /// An instruction of one operand.
    fn exec_unary(&mut self, fi: usize, pc: usize, op: UnOp) -> (r: Result<(), Trap>)
        requires
            old(self).wf(),
            old(self).running(fi, pc),
        ensures
            final(self).wf(),
            r is Err ==> keeps_store(old(self).state(), final(self).state()),
            final(self).program() == old(self).program(),
            final(self).internal_module == old(self).internal_module,
            agrees(r, final(self).state(), spec_unary(old(self).state(), pc as nat, op)),
    {
        proof {
            assert(self.program().functions[fi as int].body.len() < MAX_BODY_LEN);
        }
        let v = match self.stack.pop_value() {
            Ok(v) => v,
            Err(e) => return Err(e),
        };
        let x = match apply_unary(op, v) {
            Ok(x) => x,
            Err(e) => return Err(e),
        };
        match self.stack.push(StackEntry::Value(x)) {
            Ok(()) => {},
            Err(e) => return Err(e),
        }
        self.goto(pc + 1);
        Ok(())
    }

    /// An instruction of two operands.
    fn exec_binary(&mut self, fi: usize, pc: usize, op: BinOp) -> (r: Result<(), Trap>)
        requires
            old(self).wf(),
            old(self).running(fi, pc),
        ensures
            final(self).wf(),
            r is Err ==> keeps_store(old(self).state(), final(self).state()),
            final(self).program() == old(self).program(),
            final(self).internal_module == old(self).internal_module,
            agrees(r, final(self).state(), spec_binary(old(self).state(), pc as nat, op)),
    {
        proof {
            assert(self.program().functions[fi as int].body.len() < MAX_BODY_LEN);
        }
        let r = match self.stack.pop_value() {
            Ok(v) => v,
            Err(e) => return Err(e),
        };
        let l = match self.stack.pop_value() {
            Ok(v) => v,
            Err(e) => return Err(e),
        };
        let x = match apply_binary(op, l, r) {
            Ok(x) => x,
            Err(e) => return Err(e),
        };
        match self.stack.push(StackEntry::Value(x)) {
            Ok(()) => {},
            Err(e) => return Err(e),
        }
        self.goto(pc + 1);
        Ok(())
    }

    /// Runs the instruction at `pc` of function `fi`.
    fn evaluate_instruction(&mut self, fi: usize, pc: usize) -> (r: Result<Outcome, Trap>)
        requires
            old(self).wf(),
            old(self).running(fi, pc),
        ensures
            final(self).wf(),
            r is Err ==> keeps_store(old(self).state(), final(self).state()),
            final(self).program() == old(self).program(),
            final(self).internal_module == old(self).internal_module,
            match spec_instruction(old(self).program(), old(self).state(), old(self).program().functions[fi as int].body, pc as nat) {
                Ok((o, s)) => r == Ok::<Outcome, Trap>(o) && final(self).state() == s,
                Err(e) => r == Err::<Outcome, Trap>(e),
            },
    {
        proof {
            assert(self.program().functions[fi as int].body.len() < MAX_BODY_LEN);
        }
        let code = self.functions[fi].body()[pc];
        if code > 0xbf || (0x1c <= code && code <= 0x1f) {
            return Err(Trap::Unknown);
        }
        let isa = Isa::from(code);
        let r = match isa {
            Isa::Reserved => return Err(Trap::Unknown),
            Isa::Unreachable => return Err(Trap::Unreachable),
            Isa::Nop => {
                self.goto(pc + 1);
                Ok(())
            },
            Isa::Block => self.exec_block(fi, pc),
            Isa::Loop => self.exec_loop(fi, pc),
            Isa::If => self.exec_if(fi, pc),
            Isa::Else | Isa::End => self.exec_end(fi, pc),
            Isa::Br => match self.imm32(fi, pc + 1) {
                None => Err(Trap::UnexpectedEnd),
                Some(depth) => self.exec_br(depth),
            },
            Isa::BrIf => self.exec_br_if(fi, pc),
            Isa::BrTable => self.exec_br_table(fi, pc),
            Isa::Return => {
                let len = self.functions[fi].get_expressions_count();
                self.goto(len);
                Ok(())
            },
            Isa::Call => return self.exec_call(fi, pc),
            Isa::CallIndirect => return self.exec_call_indirect(fi, pc),
            Isa::DropInst => self.exec_drop(fi, pc),
            Isa::Select => self.exec_select(fi, pc),
            Isa::GetLocal => self.get_local(fi, pc),
            Isa::SetLocal => self.set_local(fi, pc, false),
            Isa::TeeLocal => self.set_local(fi, pc, true),
            Isa::GetGlobal => self.get_global(fi, pc),
            Isa::SetGlobal => self.set_global(fi, pc),
            Isa::MemorySize => self.exec_memory_size(fi, pc),
            Isa::MemoryGrow => self.exec_memory_grow(fi, pc),
            Isa::I32Const => self.exec_const32(fi, pc, false),
            Isa::F32Const => self.exec_const32(fi, pc, true),
            Isa::I64Const => self.exec_const64(fi, pc, false),
            Isa::F64Const => self.exec_const64(fi, pc, true),
            _ => {
                if is_float_op_of(isa) {
                    self.goto(pc + 1);
                    return Ok(Outcome::Float(code));
                }
                match binary_op_of(isa) {
                    Some(op) => self.exec_binary(fi, pc, op),
                    None => match unary_op_of(isa) {
                        Some(op) => self.exec_unary(fi, pc, op),
                        None => match load_kind_of(isa) {
                            Some(k) => self.exec_load(fi, pc, k),
                            None => match store_bits_of(isa) {
                                Some(bits) => self.exec_store(fi, pc, bits),
                                None => Err(Trap::Unknown),
                            },
                        },
                    },
                }
            },
        };
        match r {
            Ok(()) => Ok(Outcome::Continue),
            Err(e) => Err(e),
        }
    }

    /// Finishes the running call.
    fn exec_return(&mut self) -> (r: Result<Outcome, Trap>)
        requires
            old(self).wf(),
            old(self).frames@.len() > 0,
            old(self).frames@.last().function < old(self).functions@.len(),
        ensures
            final(self).wf(),
            r is Err ==> keeps_store(old(self).state(), final(self).state()),
            final(self).program() == old(self).program(),
            final(self).internal_module == old(self).internal_module,
            match spec_return(old(self).program(), old(self).state()) {
                Ok((o, s)) => r == Ok::<Outcome, Trap>(o) && final(self).state() == s,
                Err(e) => r == Err::<Outcome, Trap>(e),
            },
    {
        let f = self.frames[self.frames.len() - 1];
        let n = self.functions[f.function].function_type_ref().return_types().len();
        let rets = match self.stack.pop_values(n) {
            Ok(r) => r,
            Err(e) => return Err(e),
        };
        let fp = self.stack.frame_ptr();
        if fp > self.stack.stack_size() {
            return Err(Trap::Unknown);
        }
        self.stack.set_stack_ptr(fp);
        self.stack.set_frame_ptr(f.prev_frame_ptr);
        match self.stack.push_entries(&rets) {
            Ok(()) => {},
            Err(e) => return Err(e),
        }
        self.frames.pop();
        if self.frames.len() == 0 {
            Ok(Outcome::Finished)
        } else {
            Ok(Outcome::Continue)
        }
    }

    /// One step of the machine; a step that traps leaves the memory and the
    /// globals as they were.
    pub fn step(&mut self) -> (r: Result<Outcome, Trap>)
        requires
            old(self).wf(),
        ensures
            final(self).wf(),
            r is Err ==> keeps_store(old(self).state(), final(self).state()),
            final(self).program() == old(self).program(),
            final(self).spec_internal_module() == old(self).spec_internal_module(),
            match spec_step(old(self).program(), old(self).state()) {
                Ok((o, s)) => r == Ok::<Outcome, Trap>(o) && final(self).state() == s,
                Err(e) => r == Err::<Outcome, Trap>(e),
            },
    {
        if self.frames.len() == 0 {
            return Ok(Outcome::Finished);
        }
        let f = self.frames[self.frames.len() - 1];
        if f.function >= self.functions.len() {
            return Err(Trap::Unknown);
        }
        let len = self.functions[f.function].get_expressions_count();
        if f.ptr >= len {
            self.exec_return()
        } else {
            self.evaluate_instruction(f.function, f.ptr)
        }
    }

    /// Runs at most `fuel` steps; stops early when no call is left, giving
    /// `Finished`, at a float instruction, which it leaves to the embedder
    /// with its operands on the stack, or at a call of a host function, which
    /// it leaves to the embedder with its arguments on the stack. Having run
    /// them all, it gives `Continue`. A step that traps leaves the memory and
    /// the globals as they were when it began.
    pub fn run(&mut self, fuel: u64) -> (r: Result<Outcome, Trap>)
        requires
            old(self).wf(),
        ensures
            final(self).wf(),
            final(self).program() == old(self).program(),
            final(self).spec_internal_module() == old(self).spec_internal_module(),
            match spec_run(old(self).program(), old(self).state(), fuel as nat) {
                Ok((o, s)) => r == Ok::<Outcome, Trap>(o) && final(self).state() == s,
                Err(e) => r == Err::<Outcome, Trap>(e),
            },
            r is Err ==> keeps_store(spec_run_failing_state(old(self).program(), old(self).state(), fuel as nat), final(self).state()),
    {
        let mut left = fuel;
        while left > 0
            invariant
                self.wf(),
                self.program() == old(self).program(),
                self.spec_internal_module() == old(self).spec_internal_module(),
                spec_run(old(self).program(), old(self).state(), fuel as nat) == spec_run(self.program(), self.state(), left as nat),
                spec_run_failing_state(old(self).program(), old(self).state(), fuel as nat) == spec_run_failing_state(
                    self.program(),
                    self.state(),
                    left as nat,
                ),
            decreases left,
        {
            match self.step() {
                Err(e) => return Err(e),
                Ok(Outcome::Continue) => {},
                Ok(o) => return Ok(o),
            }
            left = left - 1;
        }
        Ok(Outcome::Continue)
    }

    /// Pushes a value, as the embedder does with the result of a float instruction.
    pub fn push_value(&mut self, v: Values) -> (r: Result<(), Trap>)
        requires
            old(self).wf(),
        ensures
            final(self).wf(),
            r is Err ==> keeps_store(old(self).state(), final(self).state()),
            final(self).program() == old(self).program(),
            final(self).spec_internal_module() == old(self).spec_internal_module(),
            match old(self).state().stack.push(StackEntry::Value(v)) {
                Ok(st) => r is Ok && final(self).state() == old(self).state().with_stack(st),
                Err(e) => r == Err::<(), Trap>(e) && final(self).state() == old(self).state(),
            },
    {
        self.stack.push(StackEntry::Value(v))
    }

    /// Pops a value: an operand of a float instruction, or a result.
    pub fn pop_value(&mut self) -> (r: Result<Values, Trap>)
        requires
            old(self).wf(),
        ensures
            final(self).wf(),
            r is Err ==> keeps_store(old(self).state(), final(self).state()),
            final(self).program() == old(self).program(),
            final(self).spec_internal_module() == old(self).spec_internal_module(),
            match old(self).state().stack.pop_value() {
                Ok((v, st)) => r == Ok::<Values, Trap>(v) && final(self).state() == old(self).state().with_stack(st),
                Err(e) => r == Err::<Values, Trap>(e) && final(self).state() == old(self).state(),
            },
    {
        self.stack.pop_value()
    }

    /// Calls function `idx` with `arguments`, the first argument first; the
    /// call then runs step by step.
    pub fn call_function(&mut self, idx: usize, arguments: &Vec<Values>) -> (r: Result<(), Trap>)
        requires
            old(self).wf(),
        ensures
            final(self).wf(),
            r is Err ==> keeps_store(old(self).state(), final(self).state()),
            final(self).program() == old(self).program(),
            final(self).spec_internal_module() == old(self).spec_internal_module(),
            agrees(r, final(self).state(), spec_call_with(old(self).program(), old(self).state(), idx as nat, arguments@)),
    {
        let mut entries: Vec<StackEntry> = Vec::new();
        let mut k: usize = arguments.len();
        let ghost es = arguments@.map_values(|v: Values| StackEntry::Value(v));
        while k > 0
            invariant
                k <= arguments@.len(),
                es == arguments@.map_values(|v: Values| StackEntry::Value(v)),
                entries@ == es.reverse().subrange(0, (arguments@.len() - k) as int),
            decreases k,
        {
            k = k - 1;
            entries.push(StackEntry::Value(arguments[k]));
            proof {
                assert(entries@ =~= es.reverse().subrange(0, (arguments@.len() - k) as int));
            }
        }
        proof {
            assert(entries@ =~= es.reverse());
        }
        match self.stack.push_entries(&entries) {
            Ok(()) => {},
            Err(e) => return Err(e),
        }
        if idx >= self.functions.len() {
            return Err(Trap::UnexpectedEnd);
        }
        if self.functions[idx].is_host() {
            return Ok(());
        }
        self.exec_enter(idx)
    }

    /// A machine for a module instance: its functions, function types, table,
    /// globals, memories, exports and start function. A body longer than the
    /// bound is out of bounds.
    pub fn new(
        functions: Vec<FunctionInstance>,
        function_types: Vec<FunctionType>,
        table: Option<TableInstance>,
        globals: GlobalInstances,
        memories: MemoryInstances,
        internal_module: InternalModule,
    ) -> (r: Result<Vm, Trap>)
        ensures
            (forall|i: int| 0 <= i < functions@.len() ==> #[trigger] functions@[i]@.body.len() < MAX_BODY_LEN) <==> r is Ok,
            r is Err ==> r == Err::<Vm, Trap>(Trap::LengthOutofBounds),
            r matches Ok(vm) ==> {
                &&& vm.wf()
                &&& vm.program() == (Program { functions: views(functions@), types: views(function_types@), table: table_view(table) })
                &&& vm.state() == fresh_state(VmState {
                    stack: vm.state().stack,
                    frames: seq![],
                    globals: global_values(globals.0@),
                    memory: mem_state(memories),
                })
                &&& vm.spec_internal_module() == internal_module
                &&& vm.spec_function_instances() == functions@
                &&& vm.spec_table() == table
            },
    {
        let mut i: usize = 0;
        while i < functions.len()
            invariant
                i <= functions@.len(),
                forall|j: int| 0 <= j < i ==> #[trigger] functions@[j]@.body.len() < MAX_BODY_LEN,
            decreases functions@.len() - i,
        {
            if functions[i].get_expressions_count() >= MAX_BODY_LEN {
                return Err(Trap::LengthOutofBounds);
            }
            i = i + 1;
        }
        let vm = Vm {
            functions,
            function_types,
            table,
            globals,
            memories,
            internal_module,
            stack: Stack::new(STACK_SIZE),
            frames: Vec::new(),
        };
        proof {
            assert(vm.state().stack.entries =~= Seq::new(STACK_SIZE as nat, |i: int| StackEntry::Empty));
        }
        Ok(vm)
    }

    /// The function `idx`, if there is one.
    pub fn get_function_instance(&self, idx: &Indice) -> (r: Option<&FunctionInstance>)
        ensures
            r is Some <==> idx.0 < self.program().functions.len(),
            r matches Some(f) ==> f@ == self.program().functions[idx.0 as int] && *f == self.spec_function_instances()[idx.0 as int],
    {
        if (idx.0 as usize) < self.functions.len() {
            Some(&self.functions[idx.0 as usize])
        } else {
            None
        }
    }

    /// The start function of the module.
    pub fn start_index(&self) -> (r: Option<Indice>)
        ensures
            r == self.spec_internal_module().spec_start(),
    {
        self.internal_module.start_function()
    }

    /// Clears the stack and the calls in progress, then looks up the export
    /// `invoke`: a function is called with `arguments`, the first argument
    /// first, and then runs step by step; a global gives its value.
    pub fn invoke(&mut self, invoke: &str, arguments: &Vec<Values>) -> (r: Result<Invocation, Trap>)
        requires
            old(self).wf(),
        ensures
            final(self).wf(),
            r is Err ==> keeps_store(old(self).state(), final(self).state()),
            final(self).program() == old(self).program(),
            final(self).spec_internal_module() == old(self).spec_internal_module(),
            ({
                let fresh = fresh_state(old(self).state());
                match find_export(old(self).spec_internal_module().spec_exports(), invoke@) {
                    None => r == Ok::<Invocation, Trap>(Invocation::NotFound) && final(self).state() == fresh,
                    Some(ModuleDescriptor::ExportDescriptor(ExportDescriptor::Function(idx))) => match spec_call_with(
                        old(self).program(),
                        fresh,
                        idx.0 as nat,
                        arguments@,
                    ) {
                        Ok(s) => r == Ok::<Invocation, Trap>(
                            if old(self).program().functions[idx.0 as int].host { Invocation::Host(idx.0) } else { Invocation::Function },
                        ) && final(self).state() == s,
                        Err(e) => r == Err::<Invocation, Trap>(e),
                    },
                    Some(ModuleDescriptor::ExportDescriptor(ExportDescriptor::Global(idx))) => r == Ok::<Invocation, Trap>(
                        Invocation::Global(if idx.0 < fresh.globals.len() { Some(fresh.globals[idx.0 as int]) } else { None }),
                    ) && final(self).state() == fresh,
                    Some(_) => r == Ok::<Invocation, Trap>(Invocation::Other) && final(self).state() == fresh,
                }
            }),
    {
        self.stack = Stack::new(STACK_SIZE);
        self.frames = Vec::new();
        proof {
            assert(self.state().stack.entries =~= Seq::new(STACK_SIZE as nat, |i: int| StackEntry::Empty));
            assert(self.state() == fresh_state(old(self).state()));
        }
        let found = match self.internal_module.get_export_by_key(invoke) {
            None => {
                proof {
                    lemma_find_export_none(self.internal_module.spec_exports(), invoke@);
                }
                return Ok(Invocation::NotFound);
            },
            Some(x) => {
                proof {
                    let i = choose|i: int|
                        0 <= i < self.internal_module.spec_exports().len() && x@ == self.internal_module.spec_exports()[i]
                            && x@.1 == invoke@ && forall|j: int| 0 <= j < i ==> #[trigger] self.internal_module.spec_exports()[j].1 != invoke@;
                    lemma_find_export_at(self.internal_module.spec_exports(), invoke@, i);
                }
                x.descriptor
            },
        };
        match found {
            ModuleDescriptor::ExportDescriptor(ExportDescriptor::Function(idx)) => {
                match self.call_function(idx.0 as usize, arguments) {
                    Ok(()) => if self.functions[idx.0 as usize].is_host() {
                        Ok(Invocation::Host(idx.0))
                    } else {
                        Ok(Invocation::Function)
                    },
                    Err(e) => Err(e),
                }
            },
            ModuleDescriptor::ExportDescriptor(ExportDescriptor::Global(idx)) => {
                match self.globals.get_global(&idx) {
                    Ok(v) => Ok(Invocation::Global(Some(v))),
                    Err(_) => Ok(Invocation::Global(None)),
                }
            },
            _ => Ok(Invocation::Other),
        }
    }

    /// The instance as a module for others to import from: copies of its
    /// functions, function types, memory, table and globals.
    pub fn export_module(&self) -> (r: ExternalModule)
        ensures
            views(r.spec_functions()) == self.program().functions,
            r.spec_functions().len() == self.spec_function_instances().len(),
            forall|k: int| 0 <= k < r.spec_functions().len() ==> {
                &&& (#[trigger] r.spec_functions()[k]).spec_export_name() == self.spec_function_instances()[k].spec_export_name()
                &&& r.spec_functions()[k].spec_source_module_name() == self.spec_function_instances()[k].spec_source_module_name()
            },
            r.spec_function_types() == self.program().types,
            self.spec_memory_instances().len() == 0 ==> r.spec_memories().len() == 0,
            self.spec_memory_instances().len() > 0 ==> {
                &&& r.spec_memories().len() == 1
                &&& r.spec_memories()[0].spec_data() == self.spec_memory_instances()[0].spec_data()
                &&& r.spec_memories()[0].spec_limit() == self.spec_memory_instances()[0].spec_limit()
                &&& r.spec_memories()[0].spec_export_name() == self.spec_memory_instances()[0].spec_export_name()
                &&& r.spec_memories()[0].spec_surface_size() == self.spec_memory_instances()[0].spec_surface_size()
            },
            self.spec_table() is None ==> r.spec_tables().len() == 0,
            self.spec_table() matches Some(t) ==> {
                &&& r.spec_tables().len() == 1
                &&& r.spec_tables()[0].spec_elements() == t.spec_elements()
                &&& r.spec_tables()[0].spec_table_type() == t.spec_table_type()
                &&& r.spec_tables()[0].spec_export_name() == t.spec_export_name()
            },
            r.spec_globals().len() == self.spec_global_instances().len(),
            forall|k: int| 0 <= k < r.spec_globals().len() ==> {
                &&& (#[trigger] r.spec_globals()[k]).global_type == self.spec_global_instances()[k].global_type
                &&& r.spec_globals()[k].value == self.spec_global_instances()[k].value
                &&& crate::module::opt_string_view(r.spec_globals()[k].export_name) == crate::module::opt_string_view(
                    self.spec_global_instances()[k].export_name,
                )
            },
    {
        let mut functions: Vec<FunctionInstance> = Vec::new();
        let mut i: usize = 0;
        while i < self.functions.len()
            invariant
                i <= self.functions@.len(),
                functions@.len() == i,
                forall|k: int| 0 <= k < i ==> {
                    &&& (#[trigger] functions@[k])@ == self.functions@[k]@
                    &&& functions@[k].spec_export_name() == self.functions@[k].spec_export_name()
                    &&& functions@[k].spec_source_module_name() == self.functions@[k].spec_source_module_name()
                },
            decreases self.functions@.len() - i,
        {
            functions.push(self.functions[i].clone());
            i = i + 1;
        }
        proof {
            assert(views(functions@) =~= views(self.functions@));
        }
        let mut types: Vec<FunctionType> = Vec::new();
        let mut j: usize = 0;
        while j < self.function_types.len()
            invariant
                j <= self.function_types@.len(),
                types@.len() == j,
                forall|k: int| 0 <= k < j ==> (#[trigger] types@[k])@ == self.function_types@[k]@,
            decreases self.function_types@.len() - j,
        {
            types.push(self.function_types[j].clone());
            j = j + 1;
        }
        proof {
            assert(views(types@) =~= views(self.function_types@));
        }
        let mut memories: Vec<MemoryInstance> = Vec::new();
        if self.memories.len() > 0 {
            memories.push(self.memories.first_instance().clone());
        }
        let mut tables: Vec<TableInstance> = Vec::new();
        match &self.table {
            Some(t) => tables.push(t.clone()),
            None => {},
        }
        let mut globals: Vec<GlobalInstance> = Vec::new();
        let mut g: usize = 0;
        while g < self.globals.0.len()
            invariant
                g <= self.globals.0@.len(),
                globals@.len() == g,
                forall|k: int| 0 <= k < g ==> {
                    &&& (#[trigger] globals@[k]).global_type == self.globals.0@[k].global_type
                    &&& globals@[k].value == self.globals.0@[k].value
                    &&& crate::module::opt_string_view(globals@[k].export_name) == crate::module::opt_string_view(self.globals.0@[k].export_name)
                },
            decreases self.globals.0@.len() - g,
        {
            let x = &self.globals.0[g];
            let name = match &x.export_name {
                Some(n) => Some(n.clone()),
                None => None,
            };
            globals.push(GlobalInstance::new(x.global_type, x.value, name));
            g = g + 1;
        }
        ExternalModule::new(functions, types, memories, tables, globals)
    }
}

} // verus!
