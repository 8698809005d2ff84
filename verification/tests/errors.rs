use wasvm::code::Code;
use wasvm::error::{Trap, TypeError, WasmError};
use wasvm::indice::Indice;
use wasvm::isa::Isa;
use wasvm::module::{ExternalInterface, ExternalInterfaces, ImportDescriptor, ModuleDescriptor};
use wasvm::value_type::ValueTypes;

#[test]
fn trap_messages() {
    assert_eq!(Trap::DivisionByZero.message(), "integer divide by zero");
    assert_eq!(Trap::MemoryAccessOutOfBounds.message(), "out of bounds memory access");
    assert_eq!(WasmError::Trap(Trap::Unreachable).message(), "unreachable executed");
}

#[test]
fn type_error_messages_carry_indices() {
    assert_eq!(TypeError::UnknownFunction(12).message(), "unknown function 12");
    assert_eq!(TypeError::UnknownGlobal(0).message(), "unknown global 0");
    assert_eq!(TypeError::UnknownFunctionType(4096).message(), "unknown function type 4096");
    assert_eq!(WasmError::TypeError(TypeError::DuplicateExportName).message(), "duplicate export name");
}

#[test]
fn isa_round_trip() {
    assert_eq!(Isa::from(0x6a), Isa::I32Add);
    assert_eq!(Isa::I32Add.into(), 0x6a);
    assert_eq!(Isa::from(0x1b), Isa::Select);
    assert_eq!(Isa::from(0x06), Isa::Reserved);
}

#[test]
fn value_type_codes() {
    assert_eq!(ValueTypes::from(0x7f), ValueTypes::I32);
    assert_eq!(ValueTypes::try_from_code(0x40), Some(ValueTypes::Unit));
    assert_eq!(ValueTypes::try_from_code(0x00), None);
    assert_eq!(ValueTypes::I64.name(), "i64");
}

#[test]
fn code_from_byte() {
    assert_eq!(Code::from(Some(0x6a)), Code::I32Add);
    assert_eq!(Code::from(Some(0x0b)), Code::End);
    assert!(Code::is_end_of_code(Some(0x0b)));
    assert!(!Code::is_end_of_code(None));
}

#[test]
fn imports_grouped_by_kind() {
    let mut xs = ExternalInterfaces::new();
    xs.push(ExternalInterface::new(
        Some("env".to_string()),
        "f".to_string(),
        ModuleDescriptor::ImportDescriptor(ImportDescriptor::Function(Indice(0))),
    ));
    xs.push(ExternalInterface::new(
        Some("env".to_string()),
        "g".to_string(),
        ModuleDescriptor::ImportDescriptor(ImportDescriptor::Function(Indice(1))),
    ));
    xs.push(ExternalInterface::new(
        Some("env".to_string()),
        "m".to_string(),
        ModuleDescriptor::ImportDescriptor(ImportDescriptor::Memory(wasvm::memory::Limit::NoUpperLimit(1))),
    ));
    let groups = xs.group_by_kind().unwrap();
    let functions = groups.get(&0u8).unwrap();
    assert_eq!(functions.len(), 2);
    assert_eq!(functions[1].name, "g");
    assert_eq!(groups.get(&1u8).unwrap().len(), 0);
    assert_eq!(groups.get(&2u8).unwrap().len(), 1);
    assert_eq!(groups.get(&3u8).unwrap().len(), 0);
    assert!(groups.get(&4u8).is_none());
}
