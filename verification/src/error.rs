//! Runtime traps, validation errors and their human readable messages.
use vstd::prelude::*;

verus! {

/// A failure that happens while decoding or running a module.
#[derive(Debug, Clone, Copy, PartialEq, Eq, Structural)]
pub enum Trap {
    DivisionOverflow,
    DivisionByZero,
    DataSegmentDoesNotFit,
    ElementSegmentDoesNotFit,
    MemoryAccessOutOfBounds,
    BitshiftOverflow,
    IntegerOverflow,
    InvalidConversionToInt,
    InvalidMutability,
    Unknown,
    StackOverflow,
    StackUnderflow,
    Notfound,
    Undefined,
    UndefinedElement,
    TypeMismatch,
    IndirectCallTypeMismatch,
    FailToGrow,
    UnexpectedEnd,
    InvalidSectionId,
    LengthOutofBounds,
    Unreachable,
    UnknownImport,
    UninitializedElement,
    IncompatibleImportType,
    MagicHeaderNotDetected,
    UnsupportedTextform,
    IntegerRepresentationTooLong,
    FunctionAndCodeInconsitent,
    InvalidUTF8Encoding,
    LinearMapOverflowed,
}

/// A failure found while validating a decoded module.
#[derive(Debug, Clone, Copy, PartialEq, Eq, Structural)]
pub enum TypeError {
    NotFound,
    MultipleTables,
    MultipleMemories,
    TypeMismatch,
    IndirectCallTypeMismatch,
    IncompatibleImportType,
    InvalidResultArity,
    InvalidAlignment,
    InvalidMemorySize,
    InvalidStartFunction,
    UnknownLabel,
    UnknownLocal,
    UnknownMemory,
    UnknownFunctionType(u32),
    UnknownFunction(u32),
    UnknownTable(u32),
    UnknownGlobal(u32),
    ConstantExpressionRequired,
    DuplicateExportName,
    GlobalIsImmutable,
}

/// Either kind of failure.
#[derive(Debug, Clone, Copy, PartialEq, Eq, Structural)]
pub enum WasmError {
    Trap(Trap),
    TypeError(TypeError),
}

/// The result type used across the library.
pub type WasmResult<T> = core::result::Result<T, WasmError>;

/// A result whose error is a trap, with the trap wrapped as a `WasmError`.
pub open spec fn trap_result<T>(r: Result<T, Trap>) -> WasmResult<T> {
    match r {
        Ok(v) => Ok(v),
        Err(e) => Err(WasmError::Trap(e)),
    }
}


impl Trap {
    /// The message that describes this trap.
    pub open spec fn spec_message(self) -> Seq<char> {
        match self {
            Trap::DivisionOverflow => "integer overflow"@,
            Trap::DivisionByZero => "integer divide by zero"@,
            Trap::DataSegmentDoesNotFit => "data segment does not fit"@,
            Trap::ElementSegmentDoesNotFit => "elements segment does not fit"@,
            Trap::MemoryAccessOutOfBounds => "out of bounds memory access"@,
            Trap::BitshiftOverflow => "bit shift overflow"@,
            Trap::IntegerOverflow => "integer overflow"@,
            Trap::InvalidConversionToInt => "invalid conversion to integer"@,
            Trap::InvalidMutability => "invalid mutability"@,
            Trap::Unknown => "unknown"@,
            Trap::StackOverflow => "stack overflow"@,
            Trap::StackUnderflow => "stack underflow"@,
            Trap::Notfound => "not found"@,
            Trap::Undefined => "undefined behavior occurred"@,
            Trap::UndefinedElement => "undefined element"@,
            Trap::TypeMismatch => "type mismatch"@,
            Trap::IndirectCallTypeMismatch => "indirect call type mismatch"@,
            Trap::FailToGrow => "fail to grow"@,
            Trap::UnexpectedEnd => "unexpected end"@,
            Trap::InvalidSectionId => "invalid section id"@,
            Trap::LengthOutofBounds => "length out of bounds"@,
            Trap::Unreachable => "unreachable executed"@,
            Trap::UnknownImport => "unknown import"@,
            Trap::UninitializedElement => "uninitialized element"@,
            Trap::IncompatibleImportType => "incompatible import type"@,
            Trap::MagicHeaderNotDetected => "magic header not detected"@,
            Trap::UnsupportedTextform => "unsupported text form"@,
            Trap::IntegerRepresentationTooLong => "integer representation too long"@,
            Trap::FunctionAndCodeInconsitent => "function and code section have inconsistent lengths"@,
            Trap::InvalidUTF8Encoding => "malformed UTF-8 encoding"@,
            Trap::LinearMapOverflowed => "linear map overflowed"@,
        }
    }

    /// The message that describes this trap, as the test suites of the
    /// WebAssembly specification word it.
    pub fn message(&self) -> (s: String)
        ensures
            s@ == self.spec_message(),
    {
        match self {
            Trap::DivisionOverflow => String::from_str("integer overflow"),
            Trap::DivisionByZero => String::from_str("integer divide by zero"),
            Trap::DataSegmentDoesNotFit => String::from_str("data segment does not fit"),
            Trap::ElementSegmentDoesNotFit => String::from_str("elements segment does not fit"),
            Trap::MemoryAccessOutOfBounds => String::from_str("out of bounds memory access"),
            Trap::BitshiftOverflow => String::from_str("bit shift overflow"),
            Trap::IntegerOverflow => String::from_str("integer overflow"),
            Trap::InvalidConversionToInt => String::from_str("invalid conversion to integer"),
            Trap::InvalidMutability => String::from_str("invalid mutability"),
            Trap::Unknown => String::from_str("unknown"),
            Trap::StackOverflow => String::from_str("stack overflow"),
            Trap::StackUnderflow => String::from_str("stack underflow"),
            Trap::Notfound => String::from_str("not found"),
            Trap::Undefined => String::from_str("undefined behavior occurred"),
            Trap::UndefinedElement => String::from_str("undefined element"),
            Trap::TypeMismatch => String::from_str("type mismatch"),
            Trap::IndirectCallTypeMismatch => String::from_str("indirect call type mismatch"),
            Trap::FailToGrow => String::from_str("fail to grow"),
            Trap::UnexpectedEnd => String::from_str("unexpected end"),
            Trap::InvalidSectionId => String::from_str("invalid section id"),
            Trap::LengthOutofBounds => String::from_str("length out of bounds"),
            Trap::Unreachable => String::from_str("unreachable executed"),
            Trap::UnknownImport => String::from_str("unknown import"),
            Trap::UninitializedElement => String::from_str("uninitialized element"),
            Trap::IncompatibleImportType => String::from_str("incompatible import type"),
            Trap::MagicHeaderNotDetected => String::from_str("magic header not detected"),
            Trap::UnsupportedTextform => String::from_str("unsupported text form"),
            Trap::IntegerRepresentationTooLong => String::from_str("integer representation too long"),
            Trap::FunctionAndCodeInconsitent => String::from_str("function and code section have inconsistent lengths"),
            Trap::InvalidUTF8Encoding => String::from_str("malformed UTF-8 encoding"),
            Trap::LinearMapOverflowed => String::from_str("linear map overflowed"),
        }
    }
}

impl TypeError {
    /// The message that describes this validation error.
    pub open spec fn spec_message(self) -> Seq<char> {
        match self {
            TypeError::NotFound => "not found"@,
            TypeError::MultipleTables => "multiple tables"@,
            TypeError::MultipleMemories => "multiple memories"@,
            TypeError::TypeMismatch => "type mismatch"@,
            TypeError::IndirectCallTypeMismatch => "indirect call type mismatch"@,
            TypeError::IncompatibleImportType => "incompatible import type"@,
            TypeError::InvalidResultArity => "invalid result arity"@,
            TypeError::InvalidAlignment => "alignment must not be larger than natural"@,
            TypeError::InvalidMemorySize => "memory size must be at most 65536 pages (4GiB)"@,
            TypeError::InvalidStartFunction => "start function"@,
            TypeError::UnknownLabel => "unknown label"@,
            TypeError::UnknownLocal => "unknown local"@,
            TypeError::UnknownMemory => "unknown memory 0"@,
            TypeError::ConstantExpressionRequired => "constant expression required"@,
            TypeError::DuplicateExportName => "duplicate export name"@,
            TypeError::GlobalIsImmutable => "global is immutable"@,
            TypeError::UnknownFunctionType(i) => "unknown function type "@ + decimal(i as nat),
            TypeError::UnknownFunction(i) => "unknown function "@ + decimal(i as nat),
            TypeError::UnknownTable(i) => "unknown table "@ + decimal(i as nat),
            TypeError::UnknownGlobal(i) => "unknown global "@ + decimal(i as nat),
        }
    }

    /// The message that describes this validation error; an index that the
    /// error carries is written in decimal after the text.
    pub fn message(&self) -> (s: String)
        ensures
            s@ == self.spec_message(),
    {
        match self {
            TypeError::NotFound => String::from_str("not found"),
            TypeError::MultipleTables => String::from_str("multiple tables"),
            TypeError::MultipleMemories => String::from_str("multiple memories"),
            TypeError::TypeMismatch => String::from_str("type mismatch"),
            TypeError::IndirectCallTypeMismatch => String::from_str("indirect call type mismatch"),
            TypeError::IncompatibleImportType => String::from_str("incompatible import type"),
            TypeError::InvalidResultArity => String::from_str("invalid result arity"),
            TypeError::InvalidAlignment => String::from_str("alignment must not be larger than natural"),
            TypeError::InvalidMemorySize => String::from_str("memory size must be at most 65536 pages (4GiB)"),
            TypeError::InvalidStartFunction => String::from_str("start function"),
            TypeError::UnknownLabel => String::from_str("unknown label"),
            TypeError::UnknownLocal => String::from_str("unknown local"),
            TypeError::UnknownMemory => String::from_str("unknown memory 0"),
            TypeError::ConstantExpressionRequired => String::from_str("constant expression required"),
            TypeError::DuplicateExportName => String::from_str("duplicate export name"),
            TypeError::GlobalIsImmutable => String::from_str("global is immutable"),
            TypeError::UnknownFunctionType(i) => {
                let mut s = String::from_str("unknown function type ");
                let d = u32_to_decimal(*i);
                s.append(d.as_str());
                s
            }
            TypeError::UnknownFunction(i) => {
                let mut s = String::from_str("unknown function ");
                let d = u32_to_decimal(*i);
                s.append(d.as_str());
                s
            }
            TypeError::UnknownTable(i) => {
                let mut s = String::from_str("unknown table ");
                let d = u32_to_decimal(*i);
                s.append(d.as_str());
                s
            }
            TypeError::UnknownGlobal(i) => {
                let mut s = String::from_str("unknown global ");
                let d = u32_to_decimal(*i);
                s.append(d.as_str());
                s
            }
        }
    }
}

/// The character of a decimal digit.
pub open spec fn digit_char(d: nat) -> char {
    if d == 0 { '0' } else if d == 1 { '1' } else if d == 2 { '2' } else if d == 3 { '3' }
    else if d == 4 { '4' } else if d == 5 { '5' } else if d == 6 { '6' } else if d == 7 { '7' }
    else if d == 8 { '8' } else { '9' }
}

/// The decimal notation of a natural number, most significant digit first.
pub open spec fn decimal(n: nat) -> Seq<char>
    decreases n,
{
    if n < 10 {
        seq![digit_char(n)]
    } else {
        decimal(n / 10).push(digit_char(n % 10))
    }
}

fn digit_str(d: u32) -> (s: &'static str)
    requires
        d < 10,
    ensures
        s@ == seq![digit_char(d as nat)],
{
    proof {
        reveal_strlit("0");
        reveal_strlit("1");
        reveal_strlit("2");
        reveal_strlit("3");
        reveal_strlit("4");
        reveal_strlit("5");
        reveal_strlit("6");
        reveal_strlit("7");
        reveal_strlit("8");
        reveal_strlit("9");
    }
    if d == 0 { "0" } else if d == 1 { "1" } else if d == 2 { "2" } else if d == 3 { "3" }
    else if d == 4 { "4" } else if d == 5 { "5" } else if d == 6 { "6" } else if d == 7 { "7" }
    else if d == 8 { "8" } else { "9" }
}

/// Writes `n` in decimal.
pub fn u32_to_decimal(n: u32) -> (s: String)
    ensures
        s@ == decimal(n as nat),
    decreases n,
{
    if n < 10 {
        String::from_str(digit_str(n))
    } else {
        let mut s = u32_to_decimal(n / 10);
        s.append(digit_str(n % 10));
        s
    }
}

impl WasmError {
    /// The message of the trap or validation error inside.
    pub open spec fn spec_message(self) -> Seq<char> {
        match self {
            WasmError::Trap(t) => t.spec_message(),
            WasmError::TypeError(e) => e.spec_message(),
        }
    }

    /// The message of the trap or validation error inside.
    pub fn message(&self) -> (s: String)
        ensures
            s@ == self.spec_message(),
    {
        match self {
            WasmError::Trap(t) => t.message(),
            WasmError::TypeError(e) => e.message(),
        }
    }
}

impl From<Trap> for WasmError {
    fn from(t: Trap) -> (r: WasmError) {
        WasmError::Trap(t)
    }
}

impl vstd::std_specs::convert::FromSpecImpl<Trap> for WasmError {
    open spec fn obeys_from_spec() -> bool {
        true
    }

    open spec fn from_spec(t: Trap) -> WasmError {
        WasmError::Trap(t)
    }
}

impl From<TypeError> for WasmError {
    fn from(e: TypeError) -> (r: WasmError) {
        WasmError::TypeError(e)
    }
}

impl vstd::std_specs::convert::FromSpecImpl<TypeError> for WasmError {
    open spec fn obeys_from_spec() -> bool {
        true
    }

    open spec fn from_spec(e: TypeError) -> WasmError {
        WasmError::TypeError(e)
    }
}

} // verus!
