//! Validation of a decoded module: the checks on its sections, and the type
//! checking of function bodies in the byte form that decoding produces.
//!
//! A body is read one instruction at a time: each opcode is followed by its
//! immediates, a 32-bit index, alignment, offset or size in four bytes least
//! significant first, a value type in one byte, a constant in four or eight bytes.
use vstd::prelude::*;
use crate::error::{TypeError, WasmError, WasmResult};
use crate::section::SectionView;
use crate::memory::Limit;
use crate::module::{ExportDescriptor, ImportDescriptor, ModuleDescriptor, ModuleDescriptorKind, imports_of};
use crate::function::FunctionType;
use crate::global::GlobalType;
use crate::section::Section;
use crate::instruction::from_le_bytes_u32;
use crate::value_type::{ValueTypes, spec_value_type};

verus! {

/// An entry of the type stack: the type of an operand, or the mark of a label.
#[derive(Debug, Clone, Copy, PartialEq, Eq, Structural)]
pub enum Entry {
    Type(ValueTypes),
    Label,
}

/// How an instruction is checked, by its opcode.
#[derive(Debug, Clone, Copy, PartialEq, Eq, Structural)]
pub enum Check {
    Nothing,
    Block,
    Loop,
    If,
    Else,
    End,
    Br,
    BrIf,
    BrTable,
    Return,
    Call,
    CallIndirect,
    Const(ValueTypes, u32),
    GetLocal,
    SetLocal,
    TeeLocal,
    GetGlobal,
    SetGlobal,
    Load(u32, ValueTypes),
    Store(u32, ValueTypes),
    MemorySize,
    MemoryGrow,
    Unary,
    Binary,
    Compare,
    Test(ValueTypes),
    Select,
    Drop,
    Convert(ValueTypes, ValueTypes),
    Invalid,
}

/// How the instruction of opcode `code` is checked.
pub open spec fn spec_check(code: u8) -> Check {
    if code <= 0x01 {
        Check::Nothing
    } else if code == 0x02 {
        Check::Block
    } else if code == 0x03 {
        Check::Loop
    } else if code == 0x04 {
        Check::If
    } else if code == 0x05 {
        Check::Else
    } else if code == 0x0b {
        Check::End
    } else if code == 0x0c {
        Check::Br
    } else if code == 0x0d {
        Check::BrIf
    } else if code == 0x0e {
        Check::BrTable
    } else if code == 0x0f {
        Check::Return
    } else if code == 0x10 {
        Check::Call
    } else if code == 0x11 {
        Check::CallIndirect
    } else if code == 0x1a {
        Check::Drop
    } else if code == 0x1b {
        Check::Select
    } else if code == 0x20 {
        Check::GetLocal
    } else if code == 0x21 {
        Check::SetLocal
    } else if code == 0x22 {
        Check::TeeLocal
    } else if code == 0x23 {
        Check::GetGlobal
    } else if code == 0x24 {
        Check::SetGlobal
    } else if 0x28 <= code <= 0x35 {
        spec_load_check(code)
    } else if 0x36 <= code <= 0x3e {
        spec_store_check(code)
    } else if code == 0x3f {
        Check::MemorySize
    } else if code == 0x40 {
        Check::MemoryGrow
    } else if code == 0x41 {
        Check::Const(ValueTypes::I32, 4)
    } else if code == 0x42 {
        Check::Const(ValueTypes::I64, 8)
    } else if code == 0x43 {
        Check::Const(ValueTypes::F32, 4)
    } else if code == 0x44 {
        Check::Const(ValueTypes::F64, 8)
    } else if code == 0x45 {
        Check::Test(ValueTypes::I32)
    } else if code == 0x50 {
        Check::Test(ValueTypes::I64)
    } else if 0x46 <= code <= 0x66 {
        Check::Compare
    } else if (0x67 <= code <= 0x69) || (0x79 <= code <= 0x7b) || (0x8b <= code <= 0x91) || (0x99 <= code
        <= 0x9f) {
        Check::Unary
    } else if 0x6a <= code <= 0xa6 {
        Check::Binary
    } else if 0xa7 <= code <= 0xbf {
        spec_convert_check(code)
    } else {
        Check::Invalid
    }
}

/// The width in bits and the result type of the loads, opcodes 0x28 to 0x35.
pub open spec fn spec_load_check(code: u8) -> Check {
    if code == 0x28 {
        Check::Load(32, ValueTypes::I32)
    } else if code == 0x29 {
        Check::Load(64, ValueTypes::I64)
    } else if code == 0x2a {
        Check::Load(32, ValueTypes::F32)
    } else if code == 0x2b {
        Check::Load(64, ValueTypes::F64)
    } else if code <= 0x2d {
        Check::Load(8, ValueTypes::I32)
    } else if code <= 0x2f {
        Check::Load(16, ValueTypes::I32)
    } else if code <= 0x31 {
        Check::Load(8, ValueTypes::I64)
    } else if code <= 0x33 {
        Check::Load(16, ValueTypes::I64)
    } else {
        Check::Load(32, ValueTypes::I64)
    }
}

/// The width in bits and the operand type of the stores, opcodes 0x36 to 0x3e.
pub open spec fn spec_store_check(code: u8) -> Check {
    if code == 0x36 {
        Check::Store(32, ValueTypes::I32)
    } else if code == 0x37 {
        Check::Store(64, ValueTypes::I64)
    } else if code == 0x38 {
        Check::Store(32, ValueTypes::F32)
    } else if code == 0x39 {
        Check::Store(64, ValueTypes::F64)
    } else if code == 0x3a {
        Check::Store(8, ValueTypes::I32)
    } else if code == 0x3b {
        Check::Store(16, ValueTypes::I32)
    } else if code == 0x3c {
        Check::Store(8, ValueTypes::I64)
    } else if code == 0x3d {
        Check::Store(16, ValueTypes::I64)
    } else {
        Check::Store(32, ValueTypes::I64)
    }
}

/// The operand and result types of the conversions, opcodes 0xa7 to 0xbf.
pub open spec fn spec_convert_check(code: u8) -> Check {
    let (ti32, ti64, tf32, tf64) = (ValueTypes::I32, ValueTypes::I64, ValueTypes::F32, ValueTypes::F64);
    if code == 0xa7 {
        Check::Convert(ti64, ti32)
    } else if code <= 0xa9 {
        Check::Convert(tf32, ti32)
    } else if code <= 0xab {
        Check::Convert(tf64, ti32)
    } else if code <= 0xad {
        Check::Convert(ti32, ti64)
    } else if code <= 0xaf {
        Check::Convert(tf32, ti64)
    } else if code <= 0xb1 {
        Check::Convert(tf64, ti64)
    } else if code <= 0xb3 {
        Check::Convert(ti32, tf32)
    } else if code <= 0xb5 {
        Check::Convert(ti64, tf32)
    } else if code == 0xb6 {
        Check::Convert(tf64, tf32)
    } else if code <= 0xb8 {
        Check::Convert(ti32, tf64)
    } else if code <= 0xba {
        Check::Convert(ti64, tf64)
    } else if code == 0xbb {
        Check::Convert(tf32, tf64)
    } else if code == 0xbc {
        Check::Convert(tf32, ti32)
    } else if code == 0xbd {
        Check::Convert(tf64, ti64)
    } else if code == 0xbe {
        Check::Convert(ti32, tf32)
    } else {
        Check::Convert(ti64, tf64)
    }
}

/// How the instruction of opcode `code` is checked.
pub fn check_of(code: u8) -> (r: Check)
    ensures
        r == spec_check(code),
{
    if code <= 0x01 {
        Check::Nothing
    } else if code == 0x02 {
        Check::Block
    } else if code == 0x03 {
        Check::Loop
    } else if code == 0x04 {
        Check::If
    } else if code == 0x05 {
        Check::Else
    } else if code == 0x0b {
        Check::End
    } else if code == 0x0c {
        Check::Br
    } else if code == 0x0d {
        Check::BrIf
    } else if code == 0x0e {
        Check::BrTable
    } else if code == 0x0f {
        Check::Return
    } else if code == 0x10 {
        Check::Call
    } else if code == 0x11 {
        Check::CallIndirect
    } else if code == 0x1a {
        Check::Drop
    } else if code == 0x1b {
        Check::Select
    } else if code == 0x20 {
        Check::GetLocal
    } else if code == 0x21 {
        Check::SetLocal
    } else if code == 0x22 {
        Check::TeeLocal
    } else if code == 0x23 {
        Check::GetGlobal
    } else if code == 0x24 {
        Check::SetGlobal
    } else if 0x28 <= code && code <= 0x35 {
        if code == 0x28 {
            Check::Load(32, ValueTypes::I32)
        } else if code == 0x29 {
            Check::Load(64, ValueTypes::I64)
        } else if code == 0x2a {
            Check::Load(32, ValueTypes::F32)
        } else if code == 0x2b {
            Check::Load(64, ValueTypes::F64)
        } else if code <= 0x2d {
            Check::Load(8, ValueTypes::I32)
        } else if code <= 0x2f {
            Check::Load(16, ValueTypes::I32)
        } else if code <= 0x31 {
            Check::Load(8, ValueTypes::I64)
        } else if code <= 0x33 {
            Check::Load(16, ValueTypes::I64)
        } else {
            Check::Load(32, ValueTypes::I64)
        }
    } else if 0x36 <= code && code <= 0x3e {
        if code == 0x36 {
            Check::Store(32, ValueTypes::I32)
        } else if code == 0x37 {
            Check::Store(64, ValueTypes::I64)
        } else if code == 0x38 {
            Check::Store(32, ValueTypes::F32)
        } else if code == 0x39 {
            Check::Store(64, ValueTypes::F64)
        } else if code == 0x3a {
            Check::Store(8, ValueTypes::I32)
        } else if code == 0x3b {
            Check::Store(16, ValueTypes::I32)
        } else if code == 0x3c {
            Check::Store(8, ValueTypes::I64)
        } else if code == 0x3d {
            Check::Store(16, ValueTypes::I64)
        } else {
            Check::Store(32, ValueTypes::I64)
        }
    } else if code == 0x3f {
        Check::MemorySize
    } else if code == 0x40 {
        Check::MemoryGrow
    } else if code == 0x41 {
        Check::Const(ValueTypes::I32, 4)
    } else if code == 0x42 {
        Check::Const(ValueTypes::I64, 8)
    } else if code == 0x43 {
        Check::Const(ValueTypes::F32, 4)
    } else if code == 0x44 {
        Check::Const(ValueTypes::F64, 8)
    } else if code == 0x45 {
        Check::Test(ValueTypes::I32)
    } else if code == 0x50 {
        Check::Test(ValueTypes::I64)
    } else if 0x46 <= code && code <= 0x66 {
        Check::Compare
    } else if (0x67 <= code && code <= 0x69) || (0x79 <= code && code <= 0x7b) || (0x8b <= code && code
        <= 0x91) || (0x99 <= code && code <= 0x9f) {
        Check::Unary
    } else if 0x6a <= code && code <= 0xa6 {
        Check::Binary
    } else if 0xa7 <= code && code <= 0xbf {
        let (ti32, ti64, tf32, tf64) = (ValueTypes::I32, ValueTypes::I64, ValueTypes::F32, ValueTypes::F64);
        if code == 0xa7 {
            Check::Convert(ti64, ti32)
        } else if code <= 0xa9 {
            Check::Convert(tf32, ti32)
        } else if code <= 0xab {
            Check::Convert(tf64, ti32)
        } else if code <= 0xad {
            Check::Convert(ti32, ti64)
        } else if code <= 0xaf {
            Check::Convert(tf32, ti64)
        } else if code <= 0xb1 {
            Check::Convert(tf64, ti64)
        } else if code <= 0xb3 {
            Check::Convert(ti32, tf32)
        } else if code <= 0xb5 {
            Check::Convert(ti64, tf32)
        } else if code == 0xb6 {
            Check::Convert(tf64, tf32)
        } else if code <= 0xb8 {
            Check::Convert(ti32, tf64)
        } else if code <= 0xba {
            Check::Convert(ti64, tf64)
        } else if code == 0xbb {
            Check::Convert(tf32, tf64)
        } else if code == 0xbc {
            Check::Convert(tf32, ti32)
        } else if code == 0xbd {
            Check::Convert(tf64, ti64)
        } else if code == 0xbe {
            Check::Convert(ti32, tf32)
        } else {
            Check::Convert(ti64, tf64)
        }
    } else {
        Check::Invalid
    }
}

/// Pops the type on top of the stack; a label or an empty stack is a mismatch.
pub open spec fn spec_pop_type(s: Seq<Entry>) -> Result<(ValueTypes, Seq<Entry>), TypeError> {
    if s.len() > 0 && s.last() is Type {
        Ok((s.last()->Type_0, s.drop_last()))
    } else {
        Err(TypeError::TypeMismatch)
    }
}

/// Pops an `i32` from the top of the stack; anything else is a mismatch.
pub open spec fn spec_pop_i32(s: Seq<Entry>) -> Result<Seq<Entry>, TypeError> {
    if s.len() > 0 && s.last() == Entry::Type(ValueTypes::I32) {
        Ok(s.drop_last())
    } else {
        Err(TypeError::TypeMismatch)
    }
}

/// Pops types down to and including the first label, or to the bottom.
pub open spec fn spec_pop_until_label(s: Seq<Entry>) -> Seq<Entry>
    decreases s.len(),
{
    if s.len() == 0 {
        s
    } else if s.last() is Label {
        s.drop_last()
    } else {
        spec_pop_until_label(s.drop_last())
    }
}

/// The operand types of a value stack.
pub open spec fn type_entries(s: Seq<ValueTypes>) -> Seq<Entry> {
    s.map_values(|t: ValueTypes| Entry::Type(t))
}

/// Pops the parameters of a call, the last first; each must match.
pub open spec fn spec_pop_params(s: Seq<Entry>, params: Seq<ValueTypes>) -> Result<Seq<Entry>, TypeError>
    decreases params.len(),
{
    if params.len() == 0 {
        Ok(s)
    } else {
        match spec_pop_type(s) {
            Err(e) => Err(e),
            Ok((t, rest)) => if t != params.last() {
                Err(TypeError::TypeMismatch)
            } else {
                spec_pop_params(rest, params.drop_last())
            },
        }
    }
}

/// The type stack of the validation of a function.
#[derive(Debug)]
pub struct TypeStack(Vec<Entry>);

impl View for TypeStack {
    type V = Seq<Entry>;

    closed spec fn view(&self) -> Seq<Entry> {
        self.0@
    }
}

impl TypeStack {
    pub fn new() -> (r: TypeStack)
        ensures
            r@ == Seq::<Entry>::empty(),
    {
        TypeStack(Vec::new())
    }

    pub fn len(&self) -> (r: usize)
        ensures
            r == self@.len(),
    {
        self.0.len()
    }

    pub fn push(&mut self, ty: ValueTypes)
        ensures
            final(self)@ == old(self)@.push(Entry::Type(ty)),
    {
        self.0.push(Entry::Type(ty));
    }

    pub fn push_label(&mut self)
        ensures
            final(self)@ == old(self)@.push(Entry::Label),
    {
        self.0.push(Entry::Label);
    }

    pub fn pop(&mut self) -> (r: Option<Entry>)
        ensures
            old(self)@.len() > 0 ==> r == Some(old(self)@.last()) && final(self)@ == old(self)@.drop_last(),
            old(self)@.len() == 0 ==> r is None && final(self)@ == old(self)@,
    {
        self.0.pop()
    }

    pub fn pop_type(&mut self) -> (r: Result<ValueTypes, TypeError>)
        ensures
            match spec_pop_type(old(self)@) {
                Ok((t, rest)) => r == Ok::<ValueTypes, TypeError>(t) && final(self)@ == rest,
                Err(e) => r == Err::<ValueTypes, TypeError>(e),
            },
    {
        match self.pop() {
            Some(Entry::Type(ty)) => Ok(ty),
            _ => Err(TypeError::TypeMismatch),
        }
    }

    pub fn pop_i32(&mut self) -> (r: Result<ValueTypes, TypeError>)
        ensures
            match spec_pop_i32(old(self)@) {
                Ok(rest) => r == Ok::<ValueTypes, TypeError>(ValueTypes::I32) && final(self)@ == rest,
                Err(e) => r == Err::<ValueTypes, TypeError>(e),
            },
    {
        match self.pop() {
            Some(Entry::Type(ValueTypes::I32)) => Ok(ValueTypes::I32),
            _ => Err(TypeError::TypeMismatch),
        }
    }

    /// Pops types down to and including the first label, and gives the types back.
    pub fn pop_until_label(&mut self) -> (r: Vec<Entry>)
        ensures
            final(self)@ == spec_pop_until_label(old(self)@),
    {
        let mut buf: Vec<Entry> = Vec::new();
        loop
            invariant_except_break
                spec_pop_until_label(self@) == spec_pop_until_label(old(self)@),
            ensures
                self@ == spec_pop_until_label(old(self)@),
            decreases self@.len(),
        {
            let ghost before = self@;
            match self.pop() {
                Some(Entry::Type(ty)) => buf.push(Entry::Type(ty)),
                _ => break,
            }
        }
        buf
    }
}

/// What the checks of a function body read: the locals, the result type of
/// `return`, the types of the functions and the function types of the module,
/// the numbers of its tables and memories, and the types of its globals.
pub struct ValidationEnv {
    pub locals: Seq<ValueTypes>,
    pub return_type: ValueTypes,
    pub function_sigs: Seq<(Seq<ValueTypes>, Seq<ValueTypes>)>,
    pub function_types: Seq<(Seq<ValueTypes>, Seq<ValueTypes>)>,
    pub tables: nat,
    pub memories: nat,
    pub globals: Seq<GlobalType>,
}

/// Where the check of a body stands: the next instruction, the type stack,
/// and the result types of the open labels, the innermost last.
pub struct ValidationState {
    pub ptr: nat,
    pub stack: Seq<Entry>,
    pub labels: Seq<ValueTypes>,
}

/// The four bytes at `p`, least significant first, if they are there.
pub open spec fn raw_u32_at(body: Seq<u8>, p: nat) -> Option<u32> {
    if p + 4 <= body.len() {
        Some(from_le_bytes_u32(body.subrange(p as int, p + 4int)))
    } else {
        None
    }
}

/// The result type of the label `depth` levels out, if there is one.
pub open spec fn label_at(labels: Seq<ValueTypes>, depth: u32) -> Option<ValueTypes> {
    if depth < labels.len() {
        Some(labels[labels.len() - 1 - depth])
    } else {
        None
    }
}

/// The value type of a global.
pub open spec fn global_value_type(g: GlobalType) -> ValueTypes {
    match g {
        GlobalType::Const(t) => t,
        GlobalType::Var(t) => t,
    }
}

/// The largest alignment, as a power of two, that an access of `bits` bits allows.
pub open spec fn max_align(bits: u32) -> u32 {
    if bits == 8 {
        0
    } else if bits == 16 {
        1
    } else if bits == 32 {
        2
    } else {
        3
    }
}

/// `block`, `loop` and `if`: `skip` bytes of sizes, then the result type,
/// which opens a label.
#[verifier::opaque]
pub open spec fn spec_block(body: Seq<u8>, st: ValidationState, p: nat, skip: nat) -> Result<ValidationState, TypeError> {
    if p + skip < body.len() && spec_value_type(body[(p + skip) as int]) is Some {
        Ok(ValidationState {
            ptr: p + skip + 1,
            stack: st.stack.push(Entry::Label),
            labels: st.labels.push(spec_value_type(body[(p + skip) as int])->Some_0),
        })
    } else {
        Err(TypeError::NotFound)
    }
}

/// `else`: the operand on top must have the type of the label; the operands
/// down to the label are dropped, and the label stays open.
#[verifier::opaque]
pub open spec fn spec_else(st: ValidationState, p: nat) -> Result<ValidationState, TypeError> {
    if st.labels.len() == 0 {
        Err(TypeError::TypeMismatch)
    } else {
        let expect = st.labels.last();
        match spec_pop_type(st.stack) {
            Err(e) => Err(e),
            Ok((actual, rest)) => if expect != actual {
                Err(TypeError::TypeMismatch)
            } else {
                Ok(ValidationState { ptr: p, stack: spec_pop_until_label(rest), labels: st.labels })
            },
        }
    }
}

/// `end`: closes the innermost label. An operand on top must have its type,
/// and the operands down to the label are dropped; with no operand on top,
/// the label must have no result.
#[verifier::opaque]
pub open spec fn spec_end(st: ValidationState, p: nat) -> Result<ValidationState, TypeError> {
    if st.labels.len() == 0 {
        Err(TypeError::TypeMismatch)
    } else {
        let expect = st.labels.last();
        let labels = st.labels.drop_last();
        if st.stack.len() > 0 && st.stack.last() is Type {
            if expect != st.stack.last()->Type_0 {
                Err(TypeError::TypeMismatch)
            } else {
                Ok(ValidationState { ptr: p, stack: spec_pop_until_label(st.stack.drop_last()), labels })
            }
        } else if expect != ValueTypes::Unit {
            Err(TypeError::TypeMismatch)
        } else {
            Ok(ValidationState {
                ptr: p,
                stack: if st.stack.len() > 0 { st.stack.drop_last() } else { st.stack },
                labels,
            })
        }
    }
}

/// `br` and, when `conditional`, `br_if`: a label depth; the operand on top
/// must have the label's type, and `br_if` pops an `i32` condition below it.
#[verifier::opaque]
pub open spec fn spec_branch(body: Seq<u8>, st: ValidationState, p: nat, conditional: bool) -> Result<ValidationState, TypeError> {
    match raw_u32_at(body, p) {
        None => Err(TypeError::NotFound),
        Some(depth) => match label_at(st.labels, depth) {
            None => Err(TypeError::UnknownLabel),
            Some(expect) => match spec_pop_type(st.stack) {
                Err(e) => Err(e),
                Ok((actual, rest)) => {
                    let popped = if conditional { spec_pop_i32(rest) } else { Ok(rest) };
                    match popped {
                        Err(e) => Err(e),
                        Ok(rest) => if expect != actual {
                            Err(TypeError::TypeMismatch)
                        } else {
                            Ok(ValidationState { ptr: p + 4, stack: rest, labels: st.labels })
                        },
                    }
                },
            },
        },
    }
}

/// The first of the `k` label depths of a branch table at `p` that names no
/// label, or whose label has another type than `expect`.
pub open spec fn spec_table_labels(body: Seq<u8>, p: nat, k: nat, labels: Seq<ValueTypes>, expect: ValueTypes) -> Result<(), TypeError>
    decreases k,
{
    if k == 0 {
        Ok(())
    } else {
        match spec_table_labels(body, p, (k - 1) as nat, labels, expect) {
            Err(e) => Err(e),
            Ok(()) => match label_at(labels, from_le_bytes_u32(body.subrange(p + 4 * (k - 1), (p + 4 * k) as int))) {
                None => Err(TypeError::UnknownLabel),
                Some(t) => if t != expect {
                    Err(TypeError::TypeMismatch)
                } else {
                    Ok(())
                },
            },
        }
    }
}

/// `br_table`: a count, that many label depths and a default depth; every
/// label must have the type of the default's, which the operand on top must
/// have, above an `i32`.
#[verifier::opaque]
pub open spec fn spec_br_table_check(body: Seq<u8>, st: ValidationState, p: nat) -> Result<ValidationState, TypeError> {
    match raw_u32_at(body, p) {
        None => Err(TypeError::NotFound),
        Some(len) => if p + 4 * (len + 2) > body.len() {
            Err(TypeError::NotFound)
        } else {
            match label_at(st.labels, raw_u32_at(body, (p + 4 + 4 * len) as nat)->Some_0) {
                None => Err(TypeError::UnknownLabel),
                Some(expect) => match spec_table_labels(body, p + 4, len as nat, st.labels, expect) {
                    Err(e) => Err(e),
                    Ok(()) => match spec_pop_type(st.stack) {
                        Err(e) => Err(e),
                        Ok((actual, rest)) => match spec_pop_i32(rest) {
                            Err(e) => Err(e),
                            Ok(rest) => if expect != actual {
                                Err(TypeError::TypeMismatch)
                            } else {
                                Ok(ValidationState { ptr: (p + 4 * (len + 2)) as nat, stack: rest, labels: st.labels })
                            },
                        },
                    },
                },
            }
        },
    }
}

/// A call of a function of type `sig`: its parameters are popped, the last
/// first, and its results pushed.
pub open spec fn spec_apply_sig(stack: Seq<Entry>, sig: (Seq<ValueTypes>, Seq<ValueTypes>)) -> Result<Seq<Entry>, TypeError> {
    match spec_pop_params(stack, sig.0) {
        Err(e) => Err(e),
        Ok(rest) => Ok(rest + type_entries(sig.1)),
    }
}

/// `call` of a function by index, and `call_indirect` through the table
/// with a function type by index, whose operand below the arguments is an `i32`.
#[verifier::opaque]
pub open spec fn spec_call(env: ValidationEnv, body: Seq<u8>, st: ValidationState, p: nat, indirect: bool) -> Result<ValidationState, TypeError> {
    match raw_u32_at(body, p) {
        None => Err(TypeError::NotFound),
        Some(idx) => if !indirect {
            if idx < env.function_sigs.len() {
                match spec_apply_sig(st.stack, env.function_sigs[idx as int]) {
                    Err(e) => Err(e),
                    Ok(stack) => Ok(ValidationState { ptr: p + 4, stack, labels: st.labels }),
                }
            } else {
                Err(TypeError::TypeMismatch)
            }
        } else if env.tables == 0 {
            Err(TypeError::UnknownTable(0))
        } else if idx >= env.function_types.len() {
            Err(TypeError::UnknownFunctionType(idx))
        } else {
            match spec_pop_i32(st.stack) {
                Err(e) => Err(e),
                Ok(rest) => match spec_apply_sig(rest, env.function_types[idx as int]) {
                    Err(e) => Err(e),
                    Ok(stack) => Ok(ValidationState { ptr: p + 4, stack, labels: st.labels }),
                },
            }
        },
    }
}

/// `local.get`, `local.set` and `local.tee` of a local by index.
#[verifier::opaque]
pub open spec fn spec_local(env: ValidationEnv, body: Seq<u8>, st: ValidationState, p: nat, check: Check) -> Result<ValidationState, TypeError> {
    if check == Check::GetLocal {
        match raw_u32_at(body, p) {
            None => Err(TypeError::NotFound),
            Some(idx) => if idx < env.locals.len() {
                Ok(ValidationState { ptr: p + 4, stack: st.stack.push(Entry::Type(env.locals[idx as int])), labels: st.labels })
            } else {
                Err(TypeError::UnknownLocal)
            },
        }
    } else {
        match spec_pop_type(st.stack) {
            Err(e) => Err(e),
            Ok((expect, rest)) => match raw_u32_at(body, p) {
                None => Err(TypeError::NotFound),
                Some(idx) => if idx >= env.locals.len() {
                    Err(TypeError::UnknownLocal)
                } else if expect != env.locals[idx as int] {
                    Err(TypeError::TypeMismatch)
                } else {
                    Ok(ValidationState {
                        ptr: p + 4,
                        stack: if check == Check::TeeLocal { rest.push(Entry::Type(expect)) } else { rest },
                        labels: st.labels,
                    })
                },
            },
        }
    }
}

/// `global.get` and `global.set` of a global by index; only a variable may be set.
#[verifier::opaque]
pub open spec fn spec_global_access(env: ValidationEnv, body: Seq<u8>, st: ValidationState, p: nat, set: bool) -> Result<ValidationState, TypeError> {
    if !set {
        match raw_u32_at(body, p) {
            None => Err(TypeError::NotFound),
            Some(idx) => if idx < env.globals.len() {
                Ok(ValidationState {
                    ptr: p + 4,
                    stack: st.stack.push(Entry::Type(global_value_type(env.globals[idx as int]))),
                    labels: st.labels,
                })
            } else {
                Err(TypeError::UnknownGlobal(idx))
            },
        }
    } else {
        match spec_pop_type(st.stack) {
            Err(e) => Err(e),
            Ok((expect, rest)) => match raw_u32_at(body, p) {
                None => Err(TypeError::NotFound),
                Some(idx) => if idx >= env.globals.len() {
                    Err(TypeError::UnknownGlobal(idx))
                } else {
                    match env.globals[idx as int] {
                        GlobalType::Const(_) => Err(TypeError::GlobalIsImmutable),
                        GlobalType::Var(t) => if expect != t {
                            Err(TypeError::TypeMismatch)
                        } else {
                            Ok(ValidationState { ptr: p + 4, stack: rest, labels: st.labels })
                        },
                    }
                },
            },
        }
    }
}

/// A load or a store of `bits` bits of type `t`: an alignment and an offset;
/// there must be a memory, and the alignment must not exceed the width. A
/// load pops an `i32` address and pushes `t`; a store pops a `t` above the address.
#[verifier::opaque]
pub open spec fn spec_memory_access(env: ValidationEnv, body: Seq<u8>, st: ValidationState, p: nat, bits: u32, t: ValueTypes, store: bool) -> Result<ValidationState, TypeError> {
    if p + 8 > body.len() {
        Err(TypeError::NotFound)
    } else if env.memories == 0 {
        Err(TypeError::UnknownMemory)
    } else if raw_u32_at(body, p)->Some_0 > max_align(bits) {
        Err(TypeError::InvalidAlignment)
    } else if !store {
        match spec_pop_i32(st.stack) {
            Err(e) => Err(e),
            Ok(rest) => Ok(ValidationState { ptr: p + 8, stack: rest.push(Entry::Type(t)), labels: st.labels }),
        }
    } else {
        match spec_pop_type(st.stack) {
            Err(e) => Err(e),
            Ok((actual, rest)) => match spec_pop_i32(rest) {
                Err(e) => Err(e),
                Ok(rest) => if actual != t {
                    Err(TypeError::TypeMismatch)
                } else {
                    Ok(ValidationState { ptr: p + 8, stack: rest, labels: st.labels })
                },
            },
        }
    }
}

/// The instructions that read no immediate but a constant, and check operand
/// types only: constants, `return`, memory size and growth, and the numeric,
/// parametric and conversion instructions.
#[verifier::opaque]
pub open spec fn spec_operands(env: ValidationEnv, body: Seq<u8>, st: ValidationState, p: nat, check: Check) -> Result<ValidationState, TypeError> {
    let done = |stack: Seq<Entry>| Ok::<ValidationState, TypeError>(ValidationState { ptr: p, stack, labels: st.labels });
    match check {
        Check::Nothing => done(st.stack),
        Check::Const(t, w) => if p + w <= body.len() {
            Ok(ValidationState { ptr: (p + w) as nat, stack: st.stack.push(Entry::Type(t)), labels: st.labels })
        } else {
            Err(TypeError::NotFound)
        },
        Check::Return => match spec_pop_type(st.stack) {
            Err(e) => Err(e),
            Ok((actual, rest)) => if actual != env.return_type {
                Err(TypeError::TypeMismatch)
            } else {
                done(rest.push(Entry::Type(actual)))
            },
        },
        Check::MemorySize => if env.memories == 0 {
            Err(TypeError::TypeMismatch)
        } else {
            done(st.stack.push(Entry::Type(ValueTypes::I32)))
        },
        Check::MemoryGrow => if env.memories == 0 {
            Err(TypeError::TypeMismatch)
        } else {
            match spec_pop_i32(st.stack) {
                Err(e) => Err(e),
                Ok(rest) => done(rest.push(Entry::Type(ValueTypes::I32))),
            }
        },
        Check::Unary => match spec_pop_type(st.stack) {
            Err(e) => Err(e),
            Ok((t, rest)) => done(rest.push(Entry::Type(t))),
        },
        Check::Binary | Check::Compare => match spec_pop_type(st.stack) {
            Err(e) => Err(e),
            Ok((l, rest)) => match spec_pop_type(rest) {
                Err(e) => Err(e),
                Ok((r, rest)) => if l != r {
                    Err(TypeError::TypeMismatch)
                } else {
                    done(rest.push(Entry::Type(if check == Check::Binary { l } else { ValueTypes::I32 })))
                },
            },
        },
        Check::Test(t) => match spec_pop_type(st.stack) {
            Err(e) => Err(e),
            Ok((actual, rest)) => if actual != t {
                Err(TypeError::TypeMismatch)
            } else {
                done(rest.push(Entry::Type(ValueTypes::I32)))
            },
        },
        Check::Select => match spec_pop_type(st.stack) {
            Err(e) => Err(e),
            Ok((_, rest)) => match spec_pop_type(rest) {
                Err(e) => Err(e),
                Ok((_, rest)) => match spec_pop_type(rest) {
                    Err(e) => Err(e),
                    Ok((operand, rest)) => done(rest.push(Entry::Type(operand))),
                },
            },
        },
        Check::Drop => match spec_pop_type(st.stack) {
            Err(e) => Err(e),
            Ok((_, rest)) => done(rest),
        },
        Check::Convert(from, to) => match spec_pop_type(st.stack) {
            Err(e) => Err(e),
            Ok((actual, rest)) => if actual != from {
                Err(TypeError::TypeMismatch)
            } else {
                done(rest.push(Entry::Type(to)))
            },
        },
        _ => Err(TypeError::NotFound),
    }
}

/// Checks the instruction at `st.ptr`.
pub open spec fn spec_step(env: ValidationEnv, body: Seq<u8>, st: ValidationState) -> Result<ValidationState, TypeError> {
    let p = st.ptr + 1;
    let check = spec_check(body[st.ptr as int]);
    match check {
        Check::Block => spec_block(body, st, p, 4),
        Check::Loop => spec_block(body, st, p, 0),
        Check::If => match spec_pop_i32(st.stack) {
            Err(e) => Err(e),
            Ok(rest) => spec_block(body, ValidationState { stack: rest, ..st }, p, 8),
        },
        Check::Else => spec_else(st, p),
        Check::End => spec_end(st, p),
        Check::Br => spec_branch(body, st, p, false),
        Check::BrIf => spec_branch(body, st, p, true),
        Check::BrTable => spec_br_table_check(body, st, p),
        Check::Call => spec_call(env, body, st, p, false),
        Check::CallIndirect => spec_call(env, body, st, p, true),
        Check::GetLocal | Check::SetLocal | Check::TeeLocal => spec_local(env, body, st, p, check),
        Check::GetGlobal => spec_global_access(env, body, st, p, false),
        Check::SetGlobal => spec_global_access(env, body, st, p, true),
        Check::Load(bits, t) => spec_memory_access(env, body, st, p, bits, t, false),
        Check::Store(bits, t) => spec_memory_access(env, body, st, p, bits, t, true),
        _ => spec_operands(env, body, st, p, check),
    }
}

/// A check that succeeds ends at or after `p`, within the body.
pub open spec fn advances(r: Result<ValidationState, TypeError>, p: nat, len: nat) -> bool {
    r is Ok ==> p <= r->Ok_0.ptr <= len
}

/// Each check that succeeds ends at or after `p`.
proof fn lemma_checks_advance(env: ValidationEnv, body: Seq<u8>, st: ValidationState, p: nat)
    requires
        p <= body.len(),
    ensures
        advances(spec_block(body, st, p, 0), p, body.len()),
        advances(spec_block(body, st, p, 4), p, body.len()),
        forall|s: ValidationState| #[trigger] advances(spec_block(body, s, p, 8), p, body.len()),
        advances(spec_else(st, p), p, body.len()),
        advances(spec_end(st, p), p, body.len()),
        advances(spec_branch(body, st, p, false), p, body.len()),
        advances(spec_branch(body, st, p, true), p, body.len()),
        advances(spec_br_table_check(body, st, p), p, body.len()),
        advances(spec_call(env, body, st, p, false), p, body.len()),
        advances(spec_call(env, body, st, p, true), p, body.len()),
        forall|c: Check| #[trigger] advances(spec_local(env, body, st, p, c), p, body.len()),
        advances(spec_global_access(env, body, st, p, false), p, body.len()),
        advances(spec_global_access(env, body, st, p, true), p, body.len()),
        forall|bits: u32, t: ValueTypes, store: bool| #[trigger] advances(spec_memory_access(env, body, st, p, bits, t, store), p, body.len()),
        forall|c: Check| #[trigger] advances(spec_operands(env, body, st, p, c), p, body.len()),
{
    assert(advances(spec_block(body, st, p, 0), p, body.len())) by {
        reveal(spec_block);
    }
    assert(advances(spec_block(body, st, p, 4), p, body.len())) by {
        reveal(spec_block);
    }
    assert forall|s: ValidationState| advances(#[trigger] spec_block(body, s, p, 8), p, body.len()) by {
        reveal(spec_block);
    }
    assert(advances(spec_else(st, p), p, body.len())) by {
        reveal(spec_else);
    }
    assert(advances(spec_end(st, p), p, body.len())) by {
        reveal(spec_end);
    }
    assert(advances(spec_branch(body, st, p, false), p, body.len())) by {
        reveal(spec_branch);
    }
    assert(advances(spec_branch(body, st, p, true), p, body.len())) by {
        reveal(spec_branch);
    }
    assert(advances(spec_br_table_check(body, st, p), p, body.len())) by {
        reveal(spec_br_table_check);
    }
    assert(advances(spec_call(env, body, st, p, false), p, body.len())) by {
        reveal(spec_call);
    }
    assert(advances(spec_call(env, body, st, p, true), p, body.len())) by {
        reveal(spec_call);
    }
    assert forall|c: Check| advances(#[trigger] spec_local(env, body, st, p, c), p, body.len()) by {
        reveal(spec_local);
    }
    assert(advances(spec_global_access(env, body, st, p, false), p, body.len())) by {
        reveal(spec_global_access);
    }
    assert(advances(spec_global_access(env, body, st, p, true), p, body.len())) by {
        reveal(spec_global_access);
    }
    assert forall|bits: u32, t: ValueTypes, store: bool| #[trigger] advances(spec_memory_access(env, body, st, p, bits, t, store), p, body.len()) by {
        reveal(spec_memory_access);
    }
    assert forall|c: Check| advances(#[trigger] spec_operands(env, body, st, p, c), p, body.len()) by {
        reveal(spec_operands);
    }
}

/// A step that succeeds moves past the instruction.
pub proof fn lemma_step_advances(env: ValidationEnv, body: Seq<u8>, st: ValidationState)
    requires
        st.ptr < body.len(),
    ensures
        spec_step(env, body, st) is Ok ==> st.ptr < spec_step(env, body, st)->Ok_0.ptr <= body.len(),
{
    let p = st.ptr + 1;
    lemma_checks_advance(env, body, st, p);
    let check = spec_check(body[st.ptr as int]);
    if let Check::If = check {
        if let Ok(rest) = spec_pop_i32(st.stack) {
            assert(advances(spec_block(body, ValidationState { stack: rest, ..st }, p, 8), p, body.len()));
        }
    } else if let Check::Load(bits, t) = check {
        assert(advances(spec_memory_access(env, body, st, p, bits, t, false), p, body.len()));
    } else if let Check::Store(bits, t) = check {
        assert(advances(spec_memory_access(env, body, st, p, bits, t, true), p, body.len()));
    } else if check == Check::GetLocal || check == Check::SetLocal || check == Check::TeeLocal {
        assert(advances(spec_local(env, body, st, p, check), p, body.len()));
    } else {
        assert(advances(spec_operands(env, body, st, p, check), p, body.len()));
    }
}

/// Checks the instructions of a body from `st.ptr` to its end, and gives the
/// labels that are open afterwards.
pub open spec fn spec_check_body(env: ValidationEnv, body: Seq<u8>, st: ValidationState) -> Result<Seq<ValueTypes>, TypeError>
    decreases body.len() - st.ptr,
{
    if st.ptr >= body.len() {
        Ok(st.labels)
    } else {
        match spec_step(env, body, st) {
            Err(e) => Err(e),
            Ok(next) => {
                proof {
                    lemma_step_advances(env, body, st);
                }
                spec_check_body(env, body, next)
            },
        }
    }
}

/// The outcome of an instruction check as an exec function returns it: the position after the
/// instruction, with the stack and the labels that the check leaves.
pub open spec fn stepped(
    r: Result<usize, TypeError>,
    spec: Result<ValidationState, TypeError>,
    stack: Seq<Entry>,
    labels: Seq<ValueTypes>,
) -> bool {
    match spec {
        Ok(st) => r == Ok::<usize, TypeError>(st.ptr as usize) && st.ptr <= usize::MAX && stack == st.stack
            && labels == st.labels,
        Err(e) => r == Err::<usize, TypeError>(e),
    }
}

/// The state at `ptr` with the given stack and labels.
pub open spec fn state_at(ptr: nat, stack: Seq<Entry>, labels: Seq<ValueTypes>) -> ValidationState {
    ValidationState { ptr, stack, labels }
}

/// Reads four bytes at `p`, least significant first.
pub fn read_raw_u32(body: &Vec<u8>, p: usize) -> (r: Option<u32>)
    ensures
        r == raw_u32_at(body@, p as nat),
{
    if p > body.len() || body.len() - p < 4 {
        return None;
    }
    proof {
        assert(body@.subrange(p as int, p + 4int) =~= seq![body@[p as int], body@[p + 1], body@[p + 2], body@[p + 3]]);
    }
    Some((body[p] as u32) | ((body[p + 1] as u32) << 8) | ((body[p + 2] as u32) << 16) | ((body[p + 3] as u32) << 24))
}

/// The result type of the label `depth` levels out.
pub fn label_at_depth(labels: &Vec<ValueTypes>, depth: u32) -> (r: Option<ValueTypes>)
    ensures
        r == label_at(labels@, depth),
{
    if (depth as usize) < labels.len() {
        Some(labels[labels.len() - 1 - depth as usize])
    } else {
        None
    }
}

/// Pops the parameters of a call, the last first.
pub fn pop_params(stack: &mut TypeStack, params: &Vec<ValueTypes>) -> (r: Result<(), TypeError>)
    ensures
        match spec_pop_params(old(stack)@, params@) {
            Ok(rest) => r is Ok && final(stack)@ == rest,
            Err(e) => r == Err::<(), TypeError>(e),
        },
{
    let mut i = params.len();
    proof {
        assert(params@.take(i as int) =~= params@);
    }
    while i > 0
        invariant
            i <= params@.len(),
            spec_pop_params(old(stack)@, params@) == spec_pop_params(stack@, params@.take(i as int)),
        decreases i,
    {
        proof {
            assert(params@.take(i as int).drop_last() =~= params@.take(i - 1));
        }
        let t = match stack.pop_type() {
            Ok(t) => t,
            Err(e) => return Err(e),
        };
        if t != params[i - 1] {
            return Err(TypeError::TypeMismatch);
        }
        i = i - 1;
    }
    Ok(())
}

/// Pushes the results of a call, in order.
pub fn push_results(stack: &mut TypeStack, results: &Vec<ValueTypes>)
    ensures
        final(stack)@ == old(stack)@ + type_entries(results@),
{
    let mut i: usize = 0;
    while i < results.len()
        invariant
            i <= results@.len(),
            stack@ == old(stack)@ + type_entries(results@.take(i as int)),
        decreases results@.len() - i,
    {
        stack.push(results[i]);
        proof {
            assert(type_entries(results@.take(i + 1)) =~= type_entries(results@.take(i as int)).push(Entry::Type(results@[i as int])));
        }
        i = i + 1;
    }
    proof {
        assert(results@.take(results@.len() as int) =~= results@);
    }
}

/// Checks `block`, `loop` and `if` after the condition: `skip` bytes of sizes and a result type.
pub fn check_block(body: &Vec<u8>, p: usize, skip: usize, stack: &mut TypeStack, labels: &mut Vec<ValueTypes>) -> (r: Result<usize, TypeError>)
    requires
        1 <= p <= body@.len(),
        skip <= 8,
    ensures
        stepped(r, spec_block(body@, state_at((p - 1) as nat, old(stack)@, old(labels)@), p as nat, skip as nat), final(stack)@, final(labels)@),
{
    proof {
        reveal(spec_block);
    }
    if body.len() - p <= skip {
        return Err(TypeError::NotFound);
    }
    match crate::value_type::ValueTypes::try_from_code(body[p + skip]) {
        Some(t) => {
            labels.push(t);
            stack.push_label();
            Ok(p + skip + 1)
        },
        None => Err(TypeError::NotFound),
    }
}

/// Checks `else`.
pub fn check_else(p: usize, stack: &mut TypeStack, labels: &mut Vec<ValueTypes>) -> (r: Result<usize, TypeError>)
    requires
        p >= 1,
    ensures
        stepped(r, spec_else(state_at((p - 1) as nat, old(stack)@, old(labels)@), p as nat), final(stack)@, final(labels)@),
{
    proof {
        reveal(spec_else);
    }
    let expect = match labels.pop() {
        Some(t) => t,
        None => return Err(TypeError::TypeMismatch),
    };
    let actual = match stack.pop_type() {
        Ok(t) => t,
        Err(e) => return Err(e),
    };
    if expect != actual {
        return Err(TypeError::TypeMismatch);
    }
    stack.pop_until_label();
    labels.push(expect);
    proof {
        assert(labels@ =~= old(labels)@);
    }
    Ok(p)
}

/// Checks `end`.
pub fn check_end(p: usize, stack: &mut TypeStack, labels: &mut Vec<ValueTypes>) -> (r: Result<usize, TypeError>)
    requires
        p >= 1,
    ensures
        stepped(r, spec_end(state_at((p - 1) as nat, old(stack)@, old(labels)@), p as nat), final(stack)@, final(labels)@),
{
    proof {
        reveal(spec_end);
    }
    let expect = match labels.pop() {
        Some(t) => t,
        None => return Err(TypeError::TypeMismatch),
    };
    match stack.pop() {
        Some(Entry::Type(actual)) => {
            if expect != actual {
                return Err(TypeError::TypeMismatch);
            }
            stack.pop_until_label();
        },
        _ => {
            if expect != ValueTypes::Unit {
                return Err(TypeError::TypeMismatch);
            }
        },
    }
    Ok(p)
}

/// Checks `br` and, when `conditional`, `br_if`.
pub fn check_branch(body: &Vec<u8>, p: usize, conditional: bool, stack: &mut TypeStack, labels: &Vec<ValueTypes>) -> (r: Result<usize, TypeError>)
    requires
        1 <= p <= body@.len(),
    ensures
        stepped(r, spec_branch(body@, state_at((p - 1) as nat, old(stack)@, labels@), p as nat, conditional), final(stack)@, labels@),
{
    proof {
        reveal(spec_branch);
    }
    let n = body.len();
    let depth = match read_raw_u32(body, p) {
        Some(d) => d,
        None => return Err(TypeError::NotFound),
    };
    let expect = match label_at_depth(labels, depth) {
        Some(t) => t,
        None => return Err(TypeError::UnknownLabel),
    };
    let actual = match stack.pop_type() {
        Ok(t) => t,
        Err(e) => return Err(e),
    };
    if conditional {
        match stack.pop_i32() {
            Ok(_) => {},
            Err(e) => return Err(e),
        }
    }
    if expect != actual {
        return Err(TypeError::TypeMismatch);
    }
    Ok(p + 4)
}

/// Checks `br_table`.
pub fn check_br_table(body: &Vec<u8>, p: usize, stack: &mut TypeStack, labels: &Vec<ValueTypes>) -> (r: Result<usize, TypeError>)
    requires
        1 <= p <= body@.len(),
    ensures
        stepped(r, spec_br_table_check(body@, state_at((p - 1) as nat, old(stack)@, labels@), p as nat), final(stack)@, labels@),
{
    proof {
        reveal(spec_br_table_check);
    }
    let len = match read_raw_u32(body, p) {
        Some(n) => n,
        None => return Err(TypeError::NotFound),
    };
    let remaining = (body.len() - p) as u64;
    if (len as u64 + 2) * 4 > remaining {
        return Err(TypeError::NotFound);
    }
    let default_at = p + 4 + 4 * (len as usize);
    let default = match read_raw_u32(body, default_at) {
        Some(d) => d,
        None => return Err(TypeError::NotFound),
    };
    let expect = match label_at_depth(labels, default) {
        Some(t) => t,
        None => return Err(TypeError::UnknownLabel),
    };
    let mut k: u32 = 0;
    let n = body.len();
    while k < len
        invariant
            k <= len,
            n == body@.len(),
            p + 4 * (len + 2) <= body@.len(),
            1 <= p,
            raw_u32_at(body@, p as nat) == Some(len),
            raw_u32_at(body@, (p + 4 + 4 * len) as nat) == Some(default),
            label_at(labels@, default) == Some(expect),
            spec_table_labels(body@, (p + 4) as nat, k as nat, labels@, expect) == Ok::<(), TypeError>(()),
        decreases len - k,
    {
        let at = p + 4 + 4 * (k as usize);
        let depth = match read_raw_u32(body, at) {
            Some(d) => d,
            None => return Err(TypeError::NotFound),
        };
        proof {
            assert(raw_u32_at(body@, at as nat) == Some(from_le_bytes_u32(body@.subrange(p + 4 + 4 * k, (p + 4 + 4 * (k + 1)) as int))));
        }
        let t = match label_at_depth(labels, depth) {
            Some(t) => t,
            None => {
                proof {
                    reveal(spec_br_table_check);
                    lemma_table_labels_error(body@, (p + 4) as nat, k as nat, (len - k) as nat, labels@, expect);
                }
                return Err(TypeError::UnknownLabel);
            },
        };
        if t != expect {
            proof {
                reveal(spec_br_table_check);
                lemma_table_labels_error(body@, (p + 4) as nat, k as nat, (len - k) as nat, labels@, expect);
            }
            return Err(TypeError::TypeMismatch);
        }
        k = k + 1;
    }
    let actual = match stack.pop_type() {
        Ok(t) => t,
        Err(e) => return Err(e),
    };
    match stack.pop_i32() {
        Ok(_) => {},
        Err(e) => return Err(e),
    }
    if expect != actual {
        return Err(TypeError::TypeMismatch);
    }
    Ok(p + 4 * (len as usize + 2))
}

/// Once the label of the `k`-th depth of a branch table fails, checking more depths fails the same way.
proof fn lemma_table_labels_error(body: Seq<u8>, p: nat, k: nat, j: nat, labels: Seq<ValueTypes>, expect: ValueTypes)
    requires
        j > 0,
        spec_table_labels(body, p, k + 1, labels, expect) is Err,
    ensures
        spec_table_labels(body, p, k + j, labels, expect) == spec_table_labels(body, p, k + 1, labels, expect),
    decreases j,
{
    if j > 1 {
        lemma_table_labels_error(body, p, k, (j - 1) as nat, labels, expect);
        assert(spec_table_labels(body, p, k + j, labels, expect) == spec_table_labels(body, p, (k + j - 1) as nat, labels, expect));
    }
}

/// A function to check: its type, its declared locals and its body.
#[derive(Debug)]
pub struct Function {
    pub function_type: FunctionType,
    pub locals: Vec<ValueTypes>,
    pub body: Vec<u8>,
}

/// The types of a list of functions.
pub open spec fn function_sigs(fs: Seq<Function>) -> Seq<(Seq<ValueTypes>, Seq<ValueTypes>)> {
    fs.map_values(|f: Function| f.function_type@)
}

/// The types of the globals of a module.
pub open spec fn global_types(gs: Seq<(GlobalType, Seq<u8>)>) -> Seq<GlobalType> {
    gs.map_values(|g: (GlobalType, Seq<u8>)| g.0)
}

/// The validation of a module: the module, the functions that its code
/// section defines, and the locals, the labels and the result type that the
/// checks of the function bodies share, one body after the other.
pub struct Context<'a> {
    module: &'a Section,
    functions: Vec<Function>,
    locals: Vec<ValueTypes>,
    labels: Vec<ValueTypes>,
    return_type: ValueTypes,
}

impl<'a> Context<'a> {
    /// The module.
    pub closed spec fn spec_module(&self) -> &'a Section {
        self.module
    }

    /// The functions to check.
    pub closed spec fn spec_functions(&self) -> Seq<Function> {
        self.functions@
    }

    /// The locals so far.
    pub closed spec fn spec_locals(&self) -> Seq<ValueTypes> {
        self.locals@
    }

    /// The open labels so far, the innermost last.
    pub closed spec fn spec_labels(&self) -> Seq<ValueTypes> {
        self.labels@
    }

    /// The result type of `return` so far.
    pub closed spec fn spec_return_type(&self) -> ValueTypes {
        self.return_type
    }

    /// What the checks of a body read, with the given locals and result type.
    pub open spec fn env_with(&self, locals: Seq<ValueTypes>, return_type: ValueTypes) -> ValidationEnv {
        ValidationEnv {
            locals,
            return_type,
            function_sigs: function_sigs(self.spec_functions()),
            function_types: self.spec_module()@.function_types,
            tables: self.spec_module()@.tables.len(),
            memories: self.spec_module()@.limits.len(),
            globals: global_types(self.spec_module()@.globals),
        }
    }

    /// What the checks of a body read now.
    pub open spec fn env(&self) -> ValidationEnv {
        self.env_with(self.spec_locals(), self.spec_return_type())
    }

    /// Checks `call` and `call_indirect`.
    fn check_call(&self, body: &Vec<u8>, p: usize, indirect: bool, stack: &mut TypeStack, labels: &Vec<ValueTypes>) -> (r: Result<usize, TypeError>)
        requires
            1 <= p <= body@.len(),
        ensures
            stepped(r, spec_call(self.env(), body@, state_at((p - 1) as nat, old(stack)@, labels@), p as nat, indirect), final(stack)@, labels@),
    {
        proof {
            reveal(spec_call);
        }
        let n = body.len();
        let idx = match read_raw_u32(body, p) {
            Some(i) => i,
            None => return Err(TypeError::NotFound),
        };
        let function_type: &FunctionType = if !indirect {
            if (idx as usize) < self.functions.len() {
                proof {
                    assert(function_sigs(self.functions@)[idx as int] == self.functions@[idx as int].function_type@);
                }
                &self.functions[idx as usize].function_type
            } else {
                return Err(TypeError::TypeMismatch);
            }
        } else {
            if self.module.get_tables().len() == 0 {
                return Err(TypeError::UnknownTable(0));
            }
            let function_types = self.module.get_function_types();
            if (idx as usize) >= function_types.len() {
                return Err(TypeError::UnknownFunctionType(idx));
            }
            match stack.pop_i32() {
                Ok(_) => {},
                Err(e) => return Err(e),
            }
            proof {
                assert(crate::decodable::views(function_types@)[idx as int] == function_types@[idx as int]@);
            }
            &function_types[idx as usize]
        };
        match pop_params(stack, function_type.parameters()) {
            Ok(()) => {},
            Err(e) => return Err(e),
        }
        push_results(stack, function_type.return_types());
        Ok(p + 4)
    }

    /// Checks `local.get`, `local.set` and `local.tee`.
    fn check_local(&self, body: &Vec<u8>, p: usize, check: Check, stack: &mut TypeStack, labels: &Vec<ValueTypes>) -> (r: Result<usize, TypeError>)
        requires
            1 <= p <= body@.len(),
        ensures
            stepped(r, spec_local(self.env(), body@, state_at((p - 1) as nat, old(stack)@, labels@), p as nat, check), final(stack)@, labels@),
    {
        proof {
            reveal(spec_local);
        }
        let n = body.len();
        if check == Check::GetLocal {
            let idx = match read_raw_u32(body, p) {
                Some(i) => i,
                None => return Err(TypeError::NotFound),
            };
            if (idx as usize) < self.locals.len() {
                stack.push(self.locals[idx as usize]);
                Ok(p + 4)
            } else {
                Err(TypeError::UnknownLocal)
            }
        } else {
            let expect = match stack.pop_type() {
                Ok(t) => t,
                Err(e) => return Err(e),
            };
            let idx = match read_raw_u32(body, p) {
                Some(i) => i,
                None => return Err(TypeError::NotFound),
            };
            if (idx as usize) >= self.locals.len() {
                return Err(TypeError::UnknownLocal);
            }
            if expect != self.locals[idx as usize] {
                return Err(TypeError::TypeMismatch);
            }
            if check == Check::TeeLocal {
                stack.push(expect);
            }
            Ok(p + 4)
        }
    }

    /// Checks `global.get` and `global.set`.
    fn check_global(&self, body: &Vec<u8>, p: usize, set: bool, stack: &mut TypeStack, labels: &Vec<ValueTypes>) -> (r: Result<usize, TypeError>)
        requires
            1 <= p <= body@.len(),
        ensures
            stepped(r, spec_global_access(self.env(), body@, state_at((p - 1) as nat, old(stack)@, labels@), p as nat, set), final(stack)@, labels@),
    {
        proof {
            reveal(spec_global_access);
        }
        let n = body.len();
        let globals = self.module.get_globals();
        if !set {
            let idx = match read_raw_u32(body, p) {
                Some(i) => i,
                None => return Err(TypeError::NotFound),
            };
            if (idx as usize) < globals.len() {
                proof {
                    assert(crate::sec_global::global_views(globals@)[idx as int] == crate::sec_global::global_view(globals@[idx as int]));
                }
                let t = match globals[idx as usize].0 {
                    GlobalType::Const(t) => t,
                    GlobalType::Var(t) => t,
                };
                stack.push(t);
                Ok(p + 4)
            } else {
                Err(TypeError::UnknownGlobal(idx))
            }
        } else {
            let expect = match stack.pop_type() {
                Ok(t) => t,
                Err(e) => return Err(e),
            };
            let idx = match read_raw_u32(body, p) {
                Some(i) => i,
                None => return Err(TypeError::NotFound),
            };
            if (idx as usize) >= globals.len() {
                return Err(TypeError::UnknownGlobal(idx));
            }
            proof {
                assert(crate::sec_global::global_views(globals@)[idx as int] == crate::sec_global::global_view(globals@[idx as int]));
            }
            match globals[idx as usize].0 {
                GlobalType::Const(_) => Err(TypeError::GlobalIsImmutable),
                GlobalType::Var(t) => if expect != t {
                    Err(TypeError::TypeMismatch)
                } else {
                    Ok(p + 4)
                },
            }
        }
    }

    /// Checks a load or a store of `bits` bits of type `t`.
    fn check_memory_access(&self, body: &Vec<u8>, p: usize, bits: u32, t: ValueTypes, store: bool, stack: &mut TypeStack, labels: &Vec<ValueTypes>) -> (r: Result<usize, TypeError>)
        requires
            1 <= p <= body@.len(),
        ensures
            stepped(r, spec_memory_access(self.env(), body@, state_at((p - 1) as nat, old(stack)@, labels@), p as nat, bits, t, store), final(stack)@, labels@),
    {
        proof {
            reveal(spec_memory_access);
        }
        if body.len() - p < 8 {
            return Err(TypeError::NotFound);
        }
        let align = match read_raw_u32(body, p) {
            Some(a) => a,
            None => return Err(TypeError::NotFound),
        };
        if self.module.get_limits().len() == 0 {
            return Err(TypeError::UnknownMemory);
        }
        let max: u32 = if bits == 8 {
            0
        } else if bits == 16 {
            1
        } else if bits == 32 {
            2
        } else {
            3
        };
        if align > max {
            return Err(TypeError::InvalidAlignment);
        }
        if !store {
            match stack.pop_i32() {
                Ok(_) => {},
                Err(e) => return Err(e),
            }
            stack.push(t);
        } else {
            let actual = match stack.pop_type() {
                Ok(a) => a,
                Err(e) => return Err(e),
            };
            match stack.pop_i32() {
                Ok(_) => {},
                Err(e) => return Err(e),
            }
            if actual != t {
                return Err(TypeError::TypeMismatch);
            }
        }
        Ok(p + 8)
    }

    /// Checks the instructions that read no index: constants, `return`, memory
    /// size and growth, and the numeric, parametric and conversion instructions.
    fn check_operands(&self, body: &Vec<u8>, p: usize, check: Check, stack: &mut TypeStack, labels: &Vec<ValueTypes>) -> (r: Result<usize, TypeError>)
        requires
            1 <= p <= body@.len(),
        ensures
            stepped(r, spec_operands(self.env(), body@, state_at((p - 1) as nat, old(stack)@, labels@), p as nat, check), final(stack)@, labels@),
    {
        proof {
            reveal(spec_operands);
        }
        match check {
            Check::Nothing => Ok(p),
            Check::Const(t, w) => {
                if body.len() - p < w as usize {
                    return Err(TypeError::NotFound);
                }
                stack.push(t);
                Ok(p + w as usize)
            },
            Check::Return => {
                let actual = match stack.pop_type() {
                    Ok(a) => a,
                    Err(e) => return Err(e),
                };
                if actual != self.return_type {
                    return Err(TypeError::TypeMismatch);
                }
                stack.push(actual);
                Ok(p)
            },
            Check::MemorySize => {
                if self.module.get_limits().len() == 0 {
                    return Err(TypeError::TypeMismatch);
                }
                stack.push(ValueTypes::I32);
                Ok(p)
            },
            Check::MemoryGrow => {
                if self.module.get_limits().len() == 0 {
                    return Err(TypeError::TypeMismatch);
                }
                match stack.pop_i32() {
                    Ok(_) => {},
                    Err(e) => return Err(e),
                }
                stack.push(ValueTypes::I32);
                Ok(p)
            },
            Check::Unary => {
                let t = match stack.pop_type() {
                    Ok(t) => t,
                    Err(e) => return Err(e),
                };
                stack.push(t);
                Ok(p)
            },
            Check::Binary | Check::Compare => {
                let l = match stack.pop_type() {
                    Ok(t) => t,
                    Err(e) => return Err(e),
                };
                let r = match stack.pop_type() {
                    Ok(t) => t,
                    Err(e) => return Err(e),
                };
                if l != r {
                    return Err(TypeError::TypeMismatch);
                }
                stack.push(if check == Check::Binary { l } else { ValueTypes::I32 });
                Ok(p)
            },
            Check::Test(t) => {
                let actual = match stack.pop_type() {
                    Ok(a) => a,
                    Err(e) => return Err(e),
                };
                if actual != t {
                    return Err(TypeError::TypeMismatch);
                }
                stack.push(ValueTypes::I32);
                Ok(p)
            },
            Check::Select => {
                match stack.pop_type() {
                    Ok(_) => {},
                    Err(e) => return Err(e),
                }
                match stack.pop_type() {
                    Ok(_) => {},
                    Err(e) => return Err(e),
                }
                let operand = match stack.pop_type() {
                    Ok(t) => t,
                    Err(e) => return Err(e),
                };
                stack.push(operand);
                Ok(p)
            },
            Check::Drop => {
                match stack.pop_type() {
                    Ok(_) => Ok(p),
                    Err(e) => Err(e),
                }
            },
            Check::Convert(from, to) => {
                let actual = match stack.pop_type() {
                    Ok(a) => a,
                    Err(e) => return Err(e),
                };
                if actual != from {
                    return Err(TypeError::TypeMismatch);
                }
                stack.push(to);
                Ok(p)
            },
            _ => Err(TypeError::NotFound),
        }
    }

    /// Checks the instruction at `ptr`.
    fn check_instruction(&self, body: &Vec<u8>, ptr: usize, stack: &mut TypeStack, labels: &mut Vec<ValueTypes>) -> (r: Result<usize, TypeError>)
        requires
            ptr < body@.len(),
        ensures
            stepped(r, spec_step(self.env(), body@, state_at(ptr as nat, old(stack)@, old(labels)@)), final(stack)@, final(labels)@),
    {
        let n = body.len();
        let p = ptr + 1;
        let check = check_of(body[ptr]);
        match check {
            Check::Block => check_block(body, p, 4, stack, labels),
            Check::Loop => check_block(body, p, 0, stack, labels),
            Check::If => {
                match stack.pop_i32() {
                    Ok(_) => {},
                    Err(e) => return Err(e),
                }
                check_block(body, p, 8, stack, labels)
            },
            Check::Else => check_else(p, stack, labels),
            Check::End => check_end(p, stack, labels),
            Check::Br => check_branch(body, p, false, stack, labels),
            Check::BrIf => check_branch(body, p, true, stack, labels),
            Check::BrTable => check_br_table(body, p, stack, labels),
            Check::Call => self.check_call(body, p, false, stack, labels),
            Check::CallIndirect => self.check_call(body, p, true, stack, labels),
            Check::GetLocal | Check::SetLocal | Check::TeeLocal => self.check_local(body, p, check, stack, labels),
            Check::GetGlobal => self.check_global(body, p, false, stack, labels),
            Check::SetGlobal => self.check_global(body, p, true, stack, labels),
            Check::Load(bits, t) => self.check_memory_access(body, p, bits, t, false, stack, labels),
            Check::Store(bits, t) => self.check_memory_access(body, p, bits, t, true, stack, labels),
            _ => self.check_operands(body, p, check, stack, labels),
        }
    }

    /// Checks a body from its start, with the open labels `labels`.
    fn check_body(&self, body: &Vec<u8>, labels: &mut Vec<ValueTypes>) -> (r: Result<(), TypeError>)
        ensures
            match spec_check_body(self.env(), body@, state_at(0, Seq::empty(), old(labels)@)) {
                Ok(l) => r is Ok && final(labels)@ == l,
                Err(e) => r == Err::<(), TypeError>(e),
            },
    {
        let mut stack = TypeStack::new();
        let mut ptr: usize = 0;
        while ptr < body.len()
            invariant
                ptr <= body@.len(),
                spec_check_body(self.env(), body@, state_at(0, Seq::empty(), old(labels)@)) == spec_check_body(
                    self.env(),
                    body@,
                    state_at(ptr as nat, stack@, labels@),
                ),
            decreases body@.len() - ptr,
        {
            proof {
                lemma_step_advances(self.env(), body@, state_at(ptr as nat, stack@, labels@));
            }
            ptr = match self.check_instruction(body, ptr, &mut stack, labels) {
                Ok(next) => next,
                Err(e) => return Err(e),
            };
        }
        Ok(())
    }
}

/// A function to check as plain values: its type, its declared locals, its body.
pub open spec fn function_view(f: Function) -> ((Seq<ValueTypes>, Seq<ValueTypes>), Seq<ValueTypes>, Seq<u8>) {
    (f.function_type@, f.locals@, f.body@)
}

/// The functions to check as plain values.
pub open spec fn function_views(fs: Seq<Function>) -> Seq<((Seq<ValueTypes>, Seq<ValueTypes>), Seq<ValueTypes>, Seq<u8>)> {
    fs.map_values(|f: Function| function_view(f))
}

/// The first `k` functions that the code section of `m` defines, each with
/// the type that the function section gives it. A function without a type
/// index, or with an index of no type, is not found; a function whose body
/// failed to decode fails with that error.
pub open spec fn spec_new_functions(m: SectionView, k: nat) -> Result<Seq<((Seq<ValueTypes>, Seq<ValueTypes>), Seq<ValueTypes>, Seq<u8>)>, WasmError>
    decreases k,
{
    if k == 0 {
        Ok(seq![])
    } else {
        match spec_new_functions(m, (k - 1) as nat) {
            Err(e) => Err(e),
            Ok(fs) => {
                let i = k - 1;
                if i >= m.functions.len() || m.functions[i] >= m.function_types.len() {
                    Err(WasmError::TypeError(TypeError::NotFound))
                } else {
                    match m.codes[i] {
                        Err(e) => Err(e),
                        Ok((body, locals)) => Ok(fs.push((m.function_types[m.functions[i] as int], locals, body))),
                    }
                }
            },
        }
    }
}

/// Checks one function on its own: its locals are its parameters followed by
/// its declared locals, whatever functions were checked before; its first
/// result, if any, is the result type of `return` (else none); and its body
/// starts with the one label of its result type, or of no result.
pub open spec fn spec_function_pass(
    env: ValidationEnv,
    labels: Seq<ValueTypes>,
    f: ((Seq<ValueTypes>, Seq<ValueTypes>), Seq<ValueTypes>, Seq<u8>),
) -> Result<(ValidationEnv, Seq<ValueTypes>), TypeError> {
    let sig = f.0;
    let return_type = if sig.1.len() > 0 { sig.1[0] } else { ValueTypes::Unit };
    let label = if sig.1.len() > 0 { sig.1[0] } else { ValueTypes::Unit };
    let env2 = ValidationEnv { locals: sig.0 + f.1, return_type, ..env };
    match spec_check_body(env2, f.2, state_at(0, Seq::empty(), seq![label])) {
        Ok(l) => Ok((env2, l)),
        Err(e) => Err(e),
    }
}

/// Checks the first `k` functions, one after the other.
pub open spec fn spec_validate_functions(
    env: ValidationEnv,
    labels: Seq<ValueTypes>,
    fs: Seq<((Seq<ValueTypes>, Seq<ValueTypes>), Seq<ValueTypes>, Seq<u8>)>,
    k: nat,
) -> Result<(ValidationEnv, Seq<ValueTypes>), TypeError>
    decreases k,
{
    if k == 0 {
        Ok((env, labels))
    } else {
        match spec_validate_functions(env, labels, fs, (k - 1) as nat) {
            Err(e) => Err(e),
            Ok((env2, labels2)) => spec_function_pass(env2, labels2, fs[k - 1]),
        }
    }
}

impl<'a> Context<'a> {
    /// A validation of `module`, with the functions of its code section.
    pub fn new(module: &'a Section) -> (r: WasmResult<Context<'a>>)
        ensures
            match spec_new_functions(module@, module@.codes.len()) {
                Ok(fs) => r matches Ok(c) && c.spec_module() == module && function_views(c.spec_functions()) == fs
                    && c.spec_locals() == Seq::<ValueTypes>::empty() && c.spec_labels() == Seq::<ValueTypes>::empty()
                    && c.spec_return_type() == ValueTypes::Unit,
                Err(e) => r == Err::<Context<'a>, WasmError>(e),
            },
    {
        let codes = module.get_codes();
        let functions = module.get_functions();
        let function_types = module.get_function_types();
        let mut out: Vec<Function> = Vec::new();
        let mut i: usize = 0;
        proof {
            assert(function_views(out@) =~= seq![]);
        }
        while i < codes.len()
            invariant
                i <= codes@.len(),
                crate::sec_code::code_views(codes@) == module@.codes,
                functions@ == module@.functions,
                crate::decodable::views(function_types@) == module@.function_types,
                spec_new_functions(module@, i as nat) == Ok::<Seq<((Seq<ValueTypes>, Seq<ValueTypes>), Seq<ValueTypes>, Seq<u8>)>, WasmError>(function_views(out@)),
            decreases codes@.len() - i,
        {
            proof {
                assert(module@.codes[i as int] == crate::sec_code::code_view(codes@[i as int]));
            }
            if i >= functions.len() || (functions[i] as usize) >= function_types.len() {
                proof {
                    lemma_new_functions_error(module@, i as nat, (module@.codes.len() - i) as nat);
                }
                return Err(WasmError::TypeError(TypeError::NotFound));
            }
            let function_type = function_types[functions[i] as usize].clone();
            proof {
                assert(crate::decodable::views(function_types@)[functions@[i as int] as int] == function_types@[functions@[i as int] as int]@);
            }
            match &codes[i] {
                Ok((body, locals)) => {
                    let body = body.clone();
                    let locals = locals.clone();
                    proof {
                        assert(body@ =~= codes@[i as int]->Ok_0.0@);
                        assert(locals@ =~= codes@[i as int]->Ok_0.1@);
                    }
                    let f = Function { function_type, locals, body };
                    proof {
                        assert(function_views(out@.push(f)) =~= function_views(out@).push(function_view(f)));
                    }
                    out.push(f);
                },
                Err(e) => {
                    proof {
                        lemma_new_functions_error(module@, i as nat, (module@.codes.len() - i) as nat);
                    }
                    return Err(*e);
                },
            }
            i = i + 1;
        }
        Ok(Context { module, functions: out, locals: Vec::new(), labels: Vec::new(), return_type: ValueTypes::Unit })
    }

    /// Checks the body of the function at `idx`, after adding its parameters
    /// and declared locals to the locals and opening its label.
    pub fn validate_function(&mut self, idx: usize) -> (r: Result<(), TypeError>)
        requires
            idx < old(self).spec_functions().len(),
        ensures
            final(self).spec_module() == old(self).spec_module(),
            final(self).spec_functions() == old(self).spec_functions(),
            match spec_function_pass(old(self).env(), old(self).spec_labels(), function_view(old(self).spec_functions()[idx as int])) {
                Ok((env, labels)) => r is Ok && final(self).env() == env && final(self).spec_labels() == labels,
                Err(e) => r == Err::<(), TypeError>(e),
            },
    {
        let ghost f = function_view(self.functions@[idx as int]);
        let n = self.functions[idx].function_type.parameters().len();
        self.locals = Vec::new();
        let mut i: usize = 0;
        proof {
            assert(self.locals@ =~= f.0.0.take(0));
        }
        while i < n
            invariant
                i <= n,
                n == f.0.0.len(),
                f == function_view(self.functions@[idx as int]),
                idx < self.functions@.len(),
                self.locals@ == f.0.0.take(i as int),
                self.functions@ == old(self).functions@,
                self.module == old(self).module,
                self.return_type == old(self).return_type,
                self.labels@ == old(self).labels@,
            decreases n - i,
        {
            let t = self.functions[idx].function_type.parameters()[i];
            self.locals.push(t);
            proof {
                assert(f.0.0.take(i + 1) =~= f.0.0.take(i as int).push(t));
            }
            i = i + 1;
        }
        let m = self.functions[idx].locals.len();
        let mut j: usize = 0;
        proof {
            assert(f.0.0.take(n as int) =~= f.0.0);
            assert(f.0.0 + f.1.take(0) =~= f.0.0);
        }
        while j < m
            invariant
                j <= m,
                m == f.1.len(),
                f == function_view(self.functions@[idx as int]),
                idx < self.functions@.len(),
                self.locals@ == f.0.0 + f.1.take(j as int),
                self.functions@ == old(self).functions@,
                self.module == old(self).module,
                self.return_type == old(self).return_type,
                self.labels@ == old(self).labels@,
            decreases m - j,
        {
            let t = self.functions[idx].locals[j];
            self.locals.push(t);
            proof {
                assert(f.1.take(j + 1) =~= f.1.take(j as int).push(t));
                assert(f.0.0 + f.1.take(j + 1) =~= (f.0.0 + f.1.take(j as int)).push(t));
            }
            j = j + 1;
        }
        proof {
            assert(f.1.take(m as int) =~= f.1);
        }
        let label = if self.functions[idx].function_type.return_types().len() > 0 {
            self.functions[idx].function_type.return_types()[0]
        } else {
            ValueTypes::Unit
        };
        self.return_type = label;
        let mut labels: Vec<ValueTypes> = Vec::new();
        labels.push(label);
        proof {
            assert(labels@ =~= seq![label]);
        }
        let r = self.check_body(&self.functions[idx].body, &mut labels);
        self.labels = labels;
        r
    }

    /// Checks every function, one after the other.
    pub fn validate_functions(&mut self) -> (r: Result<(), TypeError>)
        ensures
            final(self).spec_module() == old(self).spec_module(),
            final(self).spec_functions() == old(self).spec_functions(),
            match spec_validate_functions(old(self).env(), old(self).spec_labels(), function_views(old(self).spec_functions()), old(self).spec_functions().len()) {
                Ok((env, labels)) => r is Ok && final(self).env() == env && final(self).spec_labels() == labels,
                Err(e) => r == Err::<(), TypeError>(e),
            },
    {
        let ghost fs = function_views(self.functions@);
        let mut i: usize = 0;
        while i < self.functions.len()
            invariant
                i <= self.functions@.len(),
                fs == function_views(self.functions@),
                self.functions@ == old(self).functions@,
                self.module == old(self).module,
                spec_validate_functions(old(self).env(), old(self).labels@, fs, i as nat) == Ok::<(ValidationEnv, Seq<ValueTypes>), TypeError>((self.env(), self.labels@)),
            decreases self.functions@.len() - i,
        {
            proof {
                assert(fs[i as int] == function_view(self.functions@[i as int]));
            }
            match self.validate_function(i) {
                Ok(()) => {},
                Err(e) => {
                    proof {
                        lemma_validate_functions_error(old(self).env(), old(self).labels@, fs, i as nat, (fs.len() - i) as nat);
                    }
                    return Err(e);
                },
            }
            i = i + 1;
        }
        Ok(())
    }
}

/// Once the function after the first `k` fails, checking more fails the same way.
proof fn lemma_new_functions_error(m: SectionView, k: nat, j: nat)
    requires
        j > 0,
        spec_new_functions(m, k + 1) is Err,
    ensures
        spec_new_functions(m, k + j) == spec_new_functions(m, k + 1),
    decreases j,
{
    if j > 1 {
        lemma_new_functions_error(m, k, (j - 1) as nat);
        assert(spec_new_functions(m, k + j) == spec_new_functions(m, (k + j - 1) as nat));
    }
}

/// Once the check of a function fails, checking more fails the same way.
proof fn lemma_validate_functions_error(
    env: ValidationEnv,
    labels: Seq<ValueTypes>,
    fs: Seq<((Seq<ValueTypes>, Seq<ValueTypes>), Seq<ValueTypes>, Seq<u8>)>,
    k: nat,
    j: nat,
)
    requires
        j > 0,
        spec_validate_functions(env, labels, fs, k + 1) is Err,
    ensures
        spec_validate_functions(env, labels, fs, k + j) == spec_validate_functions(env, labels, fs, k + 1),
    decreases j,
{
    if j > 1 {
        lemma_validate_functions_error(env, labels, fs, k, (j - 1) as nat);
        assert(spec_validate_functions(env, labels, fs, k + j) == spec_validate_functions(env, labels, fs, (k + j - 1) as nat));
    }
}

/// The first failure of `check` among the first `k` items of `s`.
pub open spec fn spec_all_ok<T>(s: Seq<T>, k: nat, check: spec_fn(T) -> Result<(), TypeError>) -> Result<(), TypeError>
    decreases k,
{
    if k == 0 {
        Ok(())
    } else {
        match spec_all_ok(s, (k - 1) as nat, check) {
            Err(e) => Err(e),
            Ok(()) => check(s[k - 1]),
        }
    }
}

/// Once an item fails, checking more items fails the same way.
pub proof fn lemma_all_ok_error<T>(s: Seq<T>, k: nat, j: nat, check: spec_fn(T) -> Result<(), TypeError>)
    requires
        j > 0,
        spec_all_ok(s, k + 1, check) is Err,
    ensures
        spec_all_ok(s, k + j, check) == spec_all_ok(s, k + 1, check),
    decreases j,
{
    if j > 1 {
        lemma_all_ok_error(s, k, (j - 1) as nat, check);
        assert(spec_all_ok(s, k + j, check) == spec_all_ok(s, (k + j - 1) as nat, check));
    }
}

/// An export must name a function, table, memory or global that the module has.
pub open spec fn export_check(m: SectionView, functions: nat) -> spec_fn((Option<Seq<char>>, Seq<char>, ModuleDescriptor)) -> Result<(), TypeError> {
    |x: (Option<Seq<char>>, Seq<char>, ModuleDescriptor)| match x.2 {
        ModuleDescriptor::ExportDescriptor(ExportDescriptor::Function(i)) => if i.0 < functions {
            Ok(())
        } else {
            Err(TypeError::UnknownFunction(i.0))
        },
        ModuleDescriptor::ExportDescriptor(ExportDescriptor::Table(i)) => if i.0 < m.tables.len() {
            Ok(())
        } else {
            Err(TypeError::UnknownTable(i.0))
        },
        ModuleDescriptor::ExportDescriptor(ExportDescriptor::Memory(i)) => if i.0 < m.limits.len() {
            Ok(())
        } else {
            Err(TypeError::UnknownMemory)
        },
        ModuleDescriptor::ExportDescriptor(ExportDescriptor::Global(i)) => if i.0 < m.globals.len() {
            Ok(())
        } else {
            Err(TypeError::UnknownGlobal(i.0))
        },
        ModuleDescriptor::ImportDescriptor(_) => Ok(()),
    }
}

/// Whether two of the interfaces have the same name.
pub open spec fn duplicate_name(s: Seq<(Option<Seq<char>>, Seq<char>, ModuleDescriptor)>) -> bool {
    exists|i: int, j: int| 0 <= i < j < s.len() && #[trigger] s[i].1 == #[trigger] s[j].1
}

/// The exports: each must name what the module has, and no two exports may
/// have the same name.
pub open spec fn spec_validate_exports(m: SectionView, functions: nat) -> Result<(), TypeError> {
    match spec_all_ok(m.exports, m.exports.len(), export_check(m, functions)) {
        Err(e) => Err(e),
        Ok(()) => if duplicate_name(m.exports) {
            Err(TypeError::DuplicateExportName)
        } else {
            Ok(())
        },
    }
}

/// An import of a function must name a function type; a table may be imported
/// only by a module without tables, a memory only by one without memories.
pub open spec fn import_check(m: SectionView) -> spec_fn((Option<Seq<char>>, Seq<char>, ModuleDescriptor)) -> Result<(), TypeError> {
    |x: (Option<Seq<char>>, Seq<char>, ModuleDescriptor)| match x.2 {
        ModuleDescriptor::ImportDescriptor(ImportDescriptor::Function(i)) => if i.0 < m.function_types.len() {
            Ok(())
        } else {
            Err(TypeError::UnknownFunction(i.0))
        },
        ModuleDescriptor::ImportDescriptor(ImportDescriptor::Table(_)) => if m.tables.len() > 0 {
            Err(TypeError::MultipleTables)
        } else {
            Ok(())
        },
        ModuleDescriptor::ImportDescriptor(ImportDescriptor::Memory(_)) => if m.limits.len() > 0 {
            Err(TypeError::MultipleMemories)
        } else {
            Ok(())
        },
        _ => Ok(()),
    }
}

/// The imports: each as `import_check` says, then at most one table and one memory.
pub open spec fn spec_validate_imports(m: SectionView) -> Result<(), TypeError> {
    match spec_all_ok(m.imports, m.imports.len(), import_check(m)) {
        Err(e) => Err(e),
        Ok(()) => if imports_of(m.imports, ModuleDescriptorKind::Table).len() > 1 {
            Err(TypeError::MultipleTables)
        } else if imports_of(m.imports, ModuleDescriptorKind::Memory).len() > 1 {
            Err(TypeError::MultipleMemories)
        } else {
            Ok(())
        },
    }
}

/// Types a constant expression from `p` up to its `end` on `stack`: constants
/// push their types and, where `globals_allowed`, `global.get` pushes the type
/// of a global; anything else is not constant.
pub open spec fn spec_constant_steps(
    globals: Seq<GlobalType>,
    expr: Seq<u8>,
    p: nat,
    stack: Seq<ValueTypes>,
    globals_allowed: bool,
) -> Result<Seq<ValueTypes>, TypeError>
    decreases expr.len() - p,
{
    if p >= expr.len() {
        Ok(stack)
    } else {
        let c = expr[p as int];
        if c == 0x0b {
            Ok(stack)
        } else if 0x41 <= c <= 0x44 {
            let (t, w) = if c == 0x41 {
                (ValueTypes::I32, 4nat)
            } else if c == 0x42 {
                (ValueTypes::I64, 8nat)
            } else if c == 0x43 {
                (ValueTypes::F32, 4nat)
            } else {
                (ValueTypes::F64, 8nat)
            };
            if p + 1 + w > expr.len() {
                Err(TypeError::NotFound)
            } else {
                spec_constant_steps(globals, expr, p + 1 + w, stack.push(t), globals_allowed)
            }
        } else if c == 0x23 && globals_allowed {
            match raw_u32_at(expr, p + 1) {
                None => Err(TypeError::TypeMismatch),
                Some(idx) => if idx < globals.len() {
                    spec_constant_steps(globals, expr, p + 5, stack.push(global_value_type(globals[idx as int])), globals_allowed)
                } else {
                    Err(TypeError::ConstantExpressionRequired)
                },
            }
        } else {
            Err(TypeError::ConstantExpressionRequired)
        }
    }
}

/// The type of a constant expression: exactly one value.
pub open spec fn spec_validate_constant(globals: Seq<GlobalType>, expr: Seq<u8>, globals_allowed: bool) -> Result<ValueTypes, TypeError> {
    match spec_constant_steps(globals, expr, 0, seq![], globals_allowed) {
        Err(e) => Err(e),
        Ok(stack) => if stack.len() != 1 {
            Err(TypeError::TypeMismatch)
        } else {
            Ok(stack[0])
        },
    }
}

/// A data segment must fill a memory that the module has, at an offset of type `i32`.
pub open spec fn data_check(m: SectionView) -> spec_fn((u32, Seq<u8>, Seq<u8>)) -> Result<(), TypeError> {
    |d: (u32, Seq<u8>, Seq<u8>)| if d.0 >= m.limits.len() {
        Err(TypeError::UnknownMemory)
    } else {
        match spec_validate_constant(global_types(m.globals), d.1, true) {
            Err(e) => Err(e),
            Ok(t) => if t != ValueTypes::I32 {
                Err(TypeError::TypeMismatch)
            } else {
                Ok(())
            },
        }
    }
}

/// The first of `k` function indices at most that names no function.
pub open spec fn spec_init_ok(init: Seq<u32>, functions: nat) -> Result<(), TypeError> {
    spec_all_ok(init, init.len(), |i: u32| if i < functions { Ok(()) } else { Err(TypeError::UnknownFunction(i)) })
}

/// An element segment must fill a table that the module has, at an offset of
/// type `i32`, with functions that the module has.
pub open spec fn element_check(m: SectionView, functions: nat) -> spec_fn((u32, Seq<u8>, Seq<u32>)) -> Result<(), TypeError> {
    |e: (u32, Seq<u8>, Seq<u32>)| if e.0 >= m.tables.len() {
        Err(TypeError::UnknownTable(e.0))
    } else {
        match spec_validate_constant(global_types(m.globals), e.1, true) {
            Err(err) => Err(err),
            Ok(t) => if t != ValueTypes::I32 {
                Err(TypeError::TypeMismatch)
            } else {
                spec_init_ok(e.2, functions)
            },
        }
    }
}

/// A global must be initialized by constants of its value type, without `global.get`.
pub open spec fn global_check(m: SectionView) -> spec_fn((GlobalType, Seq<u8>)) -> Result<(), TypeError> {
    |g: (GlobalType, Seq<u8>)| match spec_validate_constant(global_types(m.globals), g.1, false) {
        Err(e) => Err(e),
        Ok(t) => if t != global_value_type(g.0) {
            Err(TypeError::TypeMismatch)
        } else {
            Ok(())
        },
    }
}

/// A memory may have at most 65536 pages, and a maximum no less than its minimum.
pub open spec fn limit_check() -> spec_fn(Limit) -> Result<(), TypeError> {
    |l: Limit| match l {
        Limit::NoUpperLimit(min) => if min > 65536 {
            Err(TypeError::InvalidMemorySize)
        } else {
            Ok(())
        },
        Limit::HasUpperLimit(min, max) => if min > max || min > 65536 || max > 65536 {
            Err(TypeError::InvalidMemorySize)
        } else {
            Ok(())
        },
    }
}

/// A function type may have at most one result.
pub open spec fn function_type_check() -> spec_fn((Seq<ValueTypes>, Seq<ValueTypes>)) -> Result<(), TypeError> {
    |t: (Seq<ValueTypes>, Seq<ValueTypes>)| if t.1.len() > 1 {
        Err(TypeError::InvalidResultArity)
    } else {
        Ok(())
    }
}

/// The start function must be a function of the module with no parameters and no results.
pub open spec fn spec_validate_start(m: SectionView, sigs: Seq<(Seq<ValueTypes>, Seq<ValueTypes>)>) -> Result<(), TypeError> {
    match m.start {
        None => Ok(()),
        Some(idx) => if idx >= sigs.len() {
            Err(TypeError::UnknownFunction(idx))
        } else if sigs[idx as int].0.len() > 0 || sigs[idx as int].1.len() > 0 {
            Err(TypeError::InvalidStartFunction)
        } else {
            Ok(())
        },
    }
}

/// Types a constant expression.
pub fn validate_constant(globals: &Vec<(GlobalType, Vec<u8>)>, expr: &Vec<u8>, globals_allowed: bool) -> (r: Result<ValueTypes, TypeError>)
    ensures
        r == spec_validate_constant(global_types(crate::sec_global::global_views(globals@)), expr@, globals_allowed),
{
    let ghost gs = global_types(crate::sec_global::global_views(globals@));
    let n = expr.len();
    let mut stack: Vec<ValueTypes> = Vec::new();
    let mut p: usize = 0;
    loop
        invariant_except_break
            p <= n,
            spec_constant_steps(gs, expr@, 0, seq![], globals_allowed) == spec_constant_steps(gs, expr@, p as nat, stack@, globals_allowed),
        invariant
            n == expr@.len(),
            gs == global_types(crate::sec_global::global_views(globals@)),
        ensures
            spec_constant_steps(gs, expr@, 0, seq![], globals_allowed) == Ok::<Seq<ValueTypes>, TypeError>(stack@),
        decreases n - p,
    {
        if p >= n {
            break;
        }
        let c = expr[p];
        if c == 0x0b {
            break;
        } else if 0x41 <= c && c <= 0x44 {
            let (t, w): (ValueTypes, usize) = if c == 0x41 {
                (ValueTypes::I32, 4)
            } else if c == 0x42 {
                (ValueTypes::I64, 8)
            } else if c == 0x43 {
                (ValueTypes::F32, 4)
            } else {
                (ValueTypes::F64, 8)
            };
            if n - p - 1 < w {
                return Err(TypeError::NotFound);
            }
            stack.push(t);
            p = p + 1 + w;
        } else if c == 0x23 && globals_allowed {
            let idx = match read_raw_u32(expr, p + 1) {
                Some(i) => i,
                None => return Err(TypeError::TypeMismatch),
            };
            if (idx as usize) >= globals.len() {
                return Err(TypeError::ConstantExpressionRequired);
            }
            proof {
                assert(gs[idx as int] == globals@[idx as int].0);
            }
            let t = match globals[idx as usize].0 {
                GlobalType::Const(t) => t,
                GlobalType::Var(t) => t,
            };
            stack.push(t);
            p = p + 5;
        } else {
            return Err(TypeError::ConstantExpressionRequired);
        }
    }
    if stack.len() != 1 {
        return Err(TypeError::TypeMismatch);
    }
    Ok(stack[0])
}

impl<'a> Context<'a> {
    /// Checks the exports.
    pub fn validate_exports(&self) -> (r: Result<(), TypeError>)
        requires
            forall|i: int| 0 <= i < self.spec_module()@.exports.len() ==> #[trigger] self.spec_module()@.exports[i].2 is ExportDescriptor,
        ensures
            r == spec_validate_exports(self.spec_module()@, self.spec_functions().len()),
    {
        let ghost m = self.module@;
        let ghost check = export_check(m, self.functions@.len());
        let exports = self.module.get_exports();
        let n = exports.len();
        let mut i: usize = 0;
        while i < n
            invariant
                i <= n,
                n == m.exports.len(),
                exports@ == m.exports,
                m == self.module@,
                check == export_check(m, self.functions@.len()),
                spec_all_ok(m.exports, i as nat, check) == Ok::<(), TypeError>(()),
            decreases n - i,
        {
            let x = exports.get(i);
            let ok = match x.descriptor {
                ModuleDescriptor::ExportDescriptor(ExportDescriptor::Function(y)) => if (y.0 as usize) < self.functions.len() {
                    Ok(())
                } else {
                    Err(TypeError::UnknownFunction(y.0))
                },
                ModuleDescriptor::ExportDescriptor(ExportDescriptor::Table(y)) => if (y.0 as usize) < self.module.get_tables().len() {
                    Ok(())
                } else {
                    Err(TypeError::UnknownTable(y.0))
                },
                ModuleDescriptor::ExportDescriptor(ExportDescriptor::Memory(y)) => if (y.0 as usize) < self.module.get_limits().len() {
                    Ok(())
                } else {
                    Err(TypeError::UnknownMemory)
                },
                ModuleDescriptor::ExportDescriptor(ExportDescriptor::Global(y)) => if (y.0 as usize) < self.module.get_globals().len() {
                    Ok(())
                } else {
                    Err(TypeError::UnknownGlobal(y.0))
                },
                ModuleDescriptor::ImportDescriptor(_) => Ok(()),
            };
            proof {
                assert(check(m.exports[i as int]) == ok);
            }
            match ok {
                Ok(()) => {},
                Err(e) => {
                    proof {
                        lemma_all_ok_error(m.exports, i as nat, (n - i) as nat, check);
                    }
                    return Err(e);
                },
            }
            i = i + 1;
        }
        let mut j: usize = 1;
        while j < n
            invariant
                1 <= j,
                n == m.exports.len(),
                exports@ == m.exports,
                m == self.module@,
                check == export_check(m, self.functions@.len()),
                spec_all_ok(m.exports, n as nat, check) == Ok::<(), TypeError>(()),
                forall|a: int, b: int| 0 <= a < b < j && b < n ==> #[trigger] m.exports[a].1 != #[trigger] m.exports[b].1,
            decreases n - j,
        {
            let mut k: usize = 0;
            while k < j
                invariant
                    k <= j < n,
                    n == m.exports.len(),
                    exports@ == m.exports,
                    m == self.module@,
                    check == export_check(m, self.functions@.len()),
                    spec_all_ok(m.exports, n as nat, check) == Ok::<(), TypeError>(()),
                    forall|a: int| 0 <= a < k ==> #[trigger] m.exports[a].1 != m.exports[j as int].1,
                decreases j - k,
            {
                if exports.get(k).name == exports.get(j).name {
                    proof {
                        assert(m.exports[k as int].1 == m.exports[j as int].1);
                    }
                    return Err(TypeError::DuplicateExportName);
                }
                k = k + 1;
            }
            j = j + 1;
        }
        proof {
            assert(!duplicate_name(m.exports));
        }
        Ok(())
    }

    /// Checks the imports.
    pub fn validate_imports(&self) -> (r: Result<(), TypeError>)
        requires
            forall|i: int| 0 <= i < self.spec_module()@.imports.len() ==> #[trigger] self.spec_module()@.imports[i].2 is ImportDescriptor,
        ensures
            r == spec_validate_imports(self.spec_module()@),
    {
        let ghost m = self.module@;
        let ghost check = import_check(m);
        let imports = self.module.get_imports();
        let n = imports.len();
        let mut tables: usize = 0;
        let mut memories: usize = 0;
        let mut i: usize = 0;
        proof {
            reveal(Seq::filter);
        }
        while i < n
            invariant
                i <= n,
                n == m.imports.len(),
                imports@ == m.imports,
                m == self.module@,
                check == import_check(m),
                spec_all_ok(m.imports, i as nat, check) == Ok::<(), TypeError>(()),
                tables == imports_of(m.imports.take(i as int), ModuleDescriptorKind::Table).len(),
                memories == imports_of(m.imports.take(i as int), ModuleDescriptorKind::Memory).len(),
                tables <= i,
                memories <= i,
            decreases n - i,
        {
            let x = imports.get(i);
            proof {
                reveal(Seq::filter);
                assert(m.imports.take(i + 1).drop_last() =~= m.imports.take(i as int));
                assert(m.imports.take(i + 1).last() == m.imports[i as int]);
                imports_of(m.imports.take(i as int), ModuleDescriptorKind::Table).lemma_filter_len(|y: (Option<Seq<char>>, Seq<char>, ModuleDescriptor)| crate::module::is_import_of(y, ModuleDescriptorKind::Table));
            }
            let ok = match x.descriptor {
                ModuleDescriptor::ImportDescriptor(ImportDescriptor::Function(y)) => if (y.0 as usize) < self.module.get_function_types().len() {
                    Ok(())
                } else {
                    Err(TypeError::UnknownFunction(y.0))
                },
                ModuleDescriptor::ImportDescriptor(ImportDescriptor::Table(_)) => {
                    if self.module.get_tables().len() > 0 {
                        Err(TypeError::MultipleTables)
                    } else {
                        tables = tables + 1;
                        Ok(())
                    }
                },
                ModuleDescriptor::ImportDescriptor(ImportDescriptor::Memory(_)) => {
                    if self.module.get_limits().len() > 0 {
                        Err(TypeError::MultipleMemories)
                    } else {
                        memories = memories + 1;
                        Ok(())
                    }
                },
                _ => Ok(()),
            };
            proof {
                assert(check(m.imports[i as int]) == ok);
            }
            match ok {
                Ok(()) => {},
                Err(e) => {
                    proof {
                        lemma_all_ok_error(m.imports, i as nat, (n - i) as nat, check);
                    }
                    return Err(e);
                },
            }
            i = i + 1;
        }
        proof {
            assert(m.imports.take(n as int) =~= m.imports);
        }
        if tables > 1 {
            return Err(TypeError::MultipleTables);
        }
        if memories > 1 {
            return Err(TypeError::MultipleMemories);
        }
        Ok(())
    }
}

/// Checks the function indices of an element segment.
pub fn validate_init(init: &Vec<u32>, functions: usize) -> (r: Result<(), TypeError>)
    ensures
        r == spec_init_ok(init@, functions as nat),
{
    let ghost check = |i: u32| if i < functions { Ok::<(), TypeError>(()) } else { Err(TypeError::UnknownFunction(i)) };
    let mut k: usize = 0;
    while k < init.len()
        invariant
            k <= init@.len(),
            check == (|i: u32| if i < functions { Ok::<(), TypeError>(()) } else { Err(TypeError::UnknownFunction(i)) }),
            spec_all_ok(init@, k as nat, check) == Ok::<(), TypeError>(()),
        decreases init@.len() - k,
    {
        if (init[k] as usize) >= functions {
            proof {
                lemma_all_ok_error(init@, k as nat, (init@.len() - k) as nat, check);
            }
            return Err(TypeError::UnknownFunction(init[k]));
        }
        k = k + 1;
    }
    Ok(())
}

impl<'a> Context<'a> {
    /// Checks the data segments.
    pub fn validate_datas(&self) -> (r: Result<(), TypeError>)
        ensures
            r == spec_all_ok(self.spec_module()@.datas, self.spec_module()@.datas.len(), data_check(self.spec_module()@)),
    {
        let ghost m = self.module@;
        let ghost check = data_check(m);
        let datas = self.module.get_datas();
        let n = datas.len();
        let mut i: usize = 0;
        while i < n
            invariant
                i <= n,
                n == m.datas.len(),
                crate::decodable::views(datas@) == m.datas,
                m == self.module@,
                check == data_check(m),
                spec_all_ok(m.datas, i as nat, check) == Ok::<(), TypeError>(()),
            decreases n - i,
        {
            let d = &datas[i];
            proof {
                assert(m.datas[i as int] == d@);
            }
            let ok = if (d.memidx as usize) >= self.module.get_limits().len() {
                Err(TypeError::UnknownMemory)
            } else {
                match validate_constant(self.module.get_globals(), &d.offset, true) {
                    Err(e) => Err(e),
                    Ok(t) => if t != ValueTypes::I32 {
                        Err(TypeError::TypeMismatch)
                    } else {
                        Ok(())
                    },
                }
            };
            proof {
                assert(check(m.datas[i as int]) == ok);
            }
            match ok {
                Ok(()) => {},
                Err(e) => {
                    proof {
                        lemma_all_ok_error(m.datas, i as nat, (n - i) as nat, check);
                    }
                    return Err(e);
                },
            }
            i = i + 1;
        }
        Ok(())
    }

    /// Checks that there is at most one table.
    pub fn validate_tables(&self) -> (r: Result<(), TypeError>)
        ensures
            r == (if self.spec_module()@.tables.len() > 1 {
                Err::<(), TypeError>(TypeError::MultipleTables)
            } else {
                Ok(())
            }),
    {
        if self.module.get_tables().len() > 1 {
            return Err(TypeError::MultipleTables);
        }
        Ok(())
    }

    /// Checks the memory limits, then that there is at most one memory.
    pub fn validate_memories(&self) -> (r: Result<(), TypeError>)
        ensures
            r == match spec_all_ok(self.spec_module()@.limits, self.spec_module()@.limits.len(), limit_check()) {
                Err(e) => Err(e),
                Ok(()) => if self.spec_module()@.limits.len() > 1 {
                    Err::<(), TypeError>(TypeError::MultipleMemories)
                } else {
                    Ok(())
                },
            },
    {
        let ghost m = self.module@;
        let limits = self.module.get_limits();
        let n = limits.len();
        let mut i: usize = 0;
        while i < n
            invariant
                i <= n,
                n == m.limits.len(),
                limits@ == m.limits,
                m == self.module@,
                spec_all_ok(m.limits, i as nat, limit_check()) == Ok::<(), TypeError>(()),
            decreases n - i,
        {
            let ok = match limits[i] {
                Limit::NoUpperLimit(min) => if min > 65536 {
                    Err(TypeError::InvalidMemorySize)
                } else {
                    Ok(())
                },
                Limit::HasUpperLimit(min, max) => if min > max || min > 65536 || max > 65536 {
                    Err(TypeError::InvalidMemorySize)
                } else {
                    Ok(())
                },
            };
            proof {
                assert(limit_check()(m.limits[i as int]) == ok);
            }
            match ok {
                Ok(()) => {},
                Err(e) => {
                    proof {
                        lemma_all_ok_error(m.limits, i as nat, (n - i) as nat, limit_check());
                    }
                    return Err(e);
                },
            }
            i = i + 1;
        }
        if n > 1 {
            return Err(TypeError::MultipleMemories);
        }
        Ok(())
    }

    /// Checks the element segments.
    pub fn validate_elements(&self) -> (r: Result<(), TypeError>)
        ensures
            r == spec_all_ok(self.spec_module()@.elements, self.spec_module()@.elements.len(), element_check(self.spec_module()@, self.spec_functions().len())),
    {
        let ghost m = self.module@;
        let ghost check = element_check(m, self.functions@.len());
        let elements = self.module.get_elements();
        let n = elements.len();
        let mut i: usize = 0;
        while i < n
            invariant
                i <= n,
                n == m.elements.len(),
                crate::decodable::views(elements@) == m.elements,
                m == self.module@,
                check == element_check(m, self.functions@.len()),
                spec_all_ok(m.elements, i as nat, check) == Ok::<(), TypeError>(()),
            decreases n - i,
        {
            let e = &elements[i];
            proof {
                assert(m.elements[i as int] == e@);
            }
            let ok = if (e.table_idx as usize) >= self.module.get_tables().len() {
                Err(TypeError::UnknownTable(e.table_idx))
            } else {
                match validate_constant(self.module.get_globals(), &e.offset, true) {
                    Err(err) => Err(err),
                    Ok(t) => if t != ValueTypes::I32 {
                        Err(TypeError::TypeMismatch)
                    } else {
                        validate_init(&e.init, self.functions.len())
                    },
                }
            };
            proof {
                assert(check(m.elements[i as int]) == ok);
            }
            match ok {
                Ok(()) => {},
                Err(err) => {
                    proof {
                        lemma_all_ok_error(m.elements, i as nat, (n - i) as nat, check);
                    }
                    return Err(err);
                },
            }
            i = i + 1;
        }
        Ok(())
    }

    /// Checks the initializers of the globals.
    pub fn validate_globals(&self) -> (r: Result<(), TypeError>)
        ensures
            r == spec_all_ok(self.spec_module()@.globals, self.spec_module()@.globals.len(), global_check(self.spec_module()@)),
    {
        let ghost m = self.module@;
        let ghost check = global_check(m);
        let globals = self.module.get_globals();
        let n = globals.len();
        let mut i: usize = 0;
        while i < n
            invariant
                i <= n,
                n == m.globals.len(),
                crate::sec_global::global_views(globals@) == m.globals,
                m == self.module@,
                check == global_check(m),
                spec_all_ok(m.globals, i as nat, check) == Ok::<(), TypeError>(()),
            decreases n - i,
        {
            let g = &globals[i];
            proof {
                assert(m.globals[i as int] == crate::sec_global::global_view(*g));
            }
            let ok = match validate_constant(globals, &g.1, false) {
                Err(e) => Err(e),
                Ok(t) => {
                    let expect = match g.0 {
                        GlobalType::Const(t) => t,
                        GlobalType::Var(t) => t,
                    };
                    if t != expect {
                        Err(TypeError::TypeMismatch)
                    } else {
                        Ok(())
                    }
                },
            };
            proof {
                assert(check(m.globals[i as int]) == ok);
            }
            match ok {
                Ok(()) => {},
                Err(e) => {
                    proof {
                        lemma_all_ok_error(m.globals, i as nat, (n - i) as nat, check);
                    }
                    return Err(e);
                },
            }
            i = i + 1;
        }
        Ok(())
    }

    /// Checks that no function type has more than one result.
    pub fn validate_function_types(&self) -> (r: Result<(), TypeError>)
        ensures
            r == spec_all_ok(self.spec_module()@.function_types, self.spec_module()@.function_types.len(), function_type_check()),
    {
        let ghost m = self.module@;
        let function_types = self.module.get_function_types();
        let n = function_types.len();
        let mut i: usize = 0;
        while i < n
            invariant
                i <= n,
                n == m.function_types.len(),
                crate::decodable::views(function_types@) == m.function_types,
                m == self.module@,
                spec_all_ok(m.function_types, i as nat, function_type_check()) == Ok::<(), TypeError>(()),
            decreases n - i,
        {
            proof {
                assert(m.function_types[i as int] == function_types@[i as int]@);
            }
            if function_types[i].return_types().len() > 1 {
                proof {
                    lemma_all_ok_error(m.function_types, i as nat, (n - i) as nat, function_type_check());
                }
                return Err(TypeError::InvalidResultArity);
            }
            i = i + 1;
        }
        Ok(())
    }

    /// Checks the start function.
    pub fn validate_start(&self) -> (r: Result<(), TypeError>)
        ensures
            r == spec_validate_start(self.spec_module()@, function_sigs(self.spec_functions())),
    {
        match self.module.get_start() {
            None => Ok(()),
            Some(idx) => {
                if (idx as usize) >= self.functions.len() {
                    return Err(TypeError::UnknownFunction(idx));
                }
                proof {
                    assert(function_sigs(self.functions@)[idx as int] == self.functions@[idx as int].function_type@);
                }
                let ty = &self.functions[idx as usize].function_type;
                if ty.parameters().len() > 0 || ty.return_types().len() > 0 {
                    return Err(TypeError::InvalidStartFunction);
                }
                Ok(())
            },
        }
    }
}

/// Validates a module whose functions are `fs`, with the checks of the bodies
/// starting from `env` and `labels`: the exports, the imports, the data
/// segments, the tables, the memories, the element segments, the globals, the
/// function types, the function bodies and the start function, in that order;
/// the first failure is the outcome.
pub open spec fn spec_validate_all(
    m: SectionView,
    env: ValidationEnv,
    labels: Seq<ValueTypes>,
    fs: Seq<((Seq<ValueTypes>, Seq<ValueTypes>), Seq<ValueTypes>, Seq<u8>)>,
) -> Result<(), TypeError> {
    let functions = env.function_sigs.len();
    match spec_validate_exports(m, functions) {
        Err(e) => Err(e),
        Ok(()) => match spec_validate_imports(m) {
            Err(e) => Err(e),
            Ok(()) => match spec_all_ok(m.datas, m.datas.len(), data_check(m)) {
                Err(e) => Err(e),
                Ok(()) => if m.tables.len() > 1 {
                    Err(TypeError::MultipleTables)
                } else {
                    match spec_all_ok(m.limits, m.limits.len(), limit_check()) {
                        Err(e) => Err(e),
                        Ok(()) => if m.limits.len() > 1 {
                            Err(TypeError::MultipleMemories)
                        } else {
                            match spec_all_ok(m.elements, m.elements.len(), element_check(m, functions)) {
                                Err(e) => Err(e),
                                Ok(()) => match spec_all_ok(m.globals, m.globals.len(), global_check(m)) {
                                    Err(e) => Err(e),
                                    Ok(()) => match spec_all_ok(m.function_types, m.function_types.len(), function_type_check()) {
                                        Err(e) => Err(e),
                                        Ok(()) => match spec_validate_functions(env, labels, fs, fs.len()) {
                                            Err(e) => Err(e),
                                            Ok(_) => spec_validate_start(m, env.function_sigs),
                                        },
                                    },
                                },
                            }
                        },
                    }
                },
            },
        },
    }
}

/// What the checks of the bodies of a module with functions `fs` start from.
pub open spec fn initial_env(m: SectionView, fs: Seq<((Seq<ValueTypes>, Seq<ValueTypes>), Seq<ValueTypes>, Seq<u8>)>) -> ValidationEnv {
    ValidationEnv {
        locals: seq![],
        return_type: ValueTypes::Unit,
        function_sigs: fs.map_values(|f: ((Seq<ValueTypes>, Seq<ValueTypes>), Seq<ValueTypes>, Seq<u8>)| f.0),
        function_types: m.function_types,
        tables: m.tables.len(),
        memories: m.limits.len(),
        globals: global_types(m.globals),
    }
}

/// Whether every export of a module is an export descriptor and every import an import descriptor.
pub open spec fn interfaces_well_kinded(m: SectionView) -> bool {
    &&& forall|i: int| 0 <= i < m.exports.len() ==> #[trigger] m.exports[i].2 is ExportDescriptor
    &&& forall|i: int| 0 <= i < m.imports.len() ==> #[trigger] m.imports[i].2 is ImportDescriptor
}

impl<'a> Context<'a> {
    /// Validates the module.
    pub fn validate(&mut self) -> (r: Result<(), TypeError>)
        requires
            interfaces_well_kinded(old(self).spec_module()@),
        ensures
            r == spec_validate_all(old(self).spec_module()@, old(self).env(), old(self).spec_labels(), function_views(old(self).spec_functions())),
    {
        match self.validate_exports() {
            Ok(()) => {},
            Err(e) => return Err(e),
        }
        match self.validate_imports() {
            Ok(()) => {},
            Err(e) => return Err(e),
        }
        match self.validate_datas() {
            Ok(()) => {},
            Err(e) => return Err(e),
        }
        match self.validate_tables() {
            Ok(()) => {},
            Err(e) => return Err(e),
        }
        match self.validate_memories() {
            Ok(()) => {},
            Err(e) => return Err(e),
        }
        match self.validate_elements() {
            Ok(()) => {},
            Err(e) => return Err(e),
        }
        match self.validate_globals() {
            Ok(()) => {},
            Err(e) => return Err(e),
        }
        match self.validate_function_types() {
            Ok(()) => {},
            Err(e) => return Err(e),
        }
        match self.validate_functions() {
            Ok(()) => {},
            Err(e) => return Err(e),
        }
        self.validate_start()
    }
}

/// The types of the functions are those of their views.
pub proof fn lemma_sigs_of_views(fs: Seq<Function>)
    ensures
        function_sigs(fs) == function_views(fs).map_values(|f: ((Seq<ValueTypes>, Seq<ValueTypes>), Seq<ValueTypes>, Seq<u8>)| f.0),
{
    assert(function_sigs(fs) =~= function_views(fs).map_values(|f: ((Seq<ValueTypes>, Seq<ValueTypes>), Seq<ValueTypes>, Seq<u8>)| f.0));
}

} // verus!
