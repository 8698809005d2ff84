use wasvm::embedder::{decode_module, instantiate_module, validate_module};
use wasvm::error::{Trap, TypeError, WasmError};
use wasvm::value::Values;
use wasvm::function::FunctionInstance;
use wasvm::indice::Indice;
use wasvm::module::{ExternalModule, ExternalModules};
use wasvm::sec_element::Element;
use wasvm::spectest::create_spectest;
use wasvm::table::TableInstance;
use wasvm::vm::{Invocation, Vm};
use wasvm::vm_spec::Outcome;

fn leb(mut n: u32) -> Vec<u8> {
    let mut out = vec![];
    loop {
        let b = (n & 0x7f) as u8;
        n >>= 7;
        if n == 0 {
            out.push(b);
            return out;
        }
        out.push(b | 0x80);
    }
}

fn section(id: u8, payload: Vec<u8>) -> Vec<u8> {
    let mut out = vec![id];
    out.extend(leb(payload.len() as u32));
    out.extend(payload);
    out
}

fn vec_of(items: Vec<Vec<u8>>) -> Vec<u8> {
    let mut out = leb(items.len() as u32);
    for i in items {
        out.extend(i);
    }
    out
}

fn name(s: &str) -> Vec<u8> {
    let mut out = leb(s.len() as u32);
    out.extend(s.as_bytes());
    out
}

fn module(sections: Vec<Vec<u8>>) -> Vec<u8> {
    let mut out = vec![0x00, 0x61, 0x73, 0x6d, 0x01, 0x00, 0x00, 0x00];
    for s in sections {
        out.extend(s);
    }
    out
}

fn types(ts: Vec<(Vec<u8>, Vec<u8>)>) -> Vec<u8> {
    section(
        1,
        vec_of(
            ts.into_iter()
                .map(|(p, r)| {
                    let mut t = vec![0x60];
                    t.extend(leb(p.len() as u32));
                    t.extend(p);
                    t.extend(leb(r.len() as u32));
                    t.extend(r);
                    t
                })
                .collect(),
        ),
    )
}

fn functions(idx: Vec<u32>) -> Vec<u8> {
    section(3, vec_of(idx.into_iter().map(leb).collect()))
}

fn exports(es: Vec<(&str, u8, u32)>) -> Vec<u8> {
    section(
        7,
        vec_of(
            es.into_iter()
                .map(|(n, k, i)| {
                    let mut e = name(n);
                    e.push(k);
                    e.extend(leb(i));
                    e
                })
                .collect(),
        ),
    )
}

fn codes(bodies: Vec<(Vec<u8>, Vec<u8>)>) -> Vec<u8> {
    section(
        10,
        vec_of(
            bodies
                .into_iter()
                .map(|(locals, instrs)| {
                    let mut f = locals;
                    f.extend(instrs);
                    let mut c = leb(f.len() as u32);
                    c.extend(f);
                    c
                })
                .collect(),
        ),
    )
}

const I32: u8 = 0x7f;
const I64: u8 = 0x7e;

/// One exported function `_subject` of the given type, locals and body.
fn single(params: Vec<u8>, results: Vec<u8>, locals: Vec<u8>, body: Vec<u8>) -> Vec<u8> {
    module(vec![
        types(vec![(params, results)]),
        functions(vec![0]),
        exports(vec![("_subject", 0, 0)]),
        codes(vec![(locals, body)]),
    ])
}

fn drive(vm: &mut Vm) -> Result<Option<Values>, Trap> {
    loop {
        match vm.run(1_000_000)? {
            Outcome::Finished => return Ok(vm.pop_value().ok()),
            Outcome::Continue => {}
            Outcome::Float(code) => panic!("float instruction {:x} left to the embedder", code),
            Outcome::Host(idx) => panic!("host function {} left to the embedder", idx),
        }
    }
}

fn call(bytes: &[u8], name: &str, args: Vec<Values>) -> Result<Option<Values>, Trap> {
    let section = decode_module(bytes);
    let mut vm = instantiate_module(section, &ExternalModules::default()).unwrap();
    match vm.invoke(name, &args)? {
        Invocation::Function => drive(&mut vm),
        other => panic!("expected a function, got {:?}", other),
    }
}

#[test]
fn evaluate_cons8() {
    let bytes = single(vec![], vec![I32], vec![0], vec![0x41, 42, 0x0b]);
    assert_eq!(validate_module(&decode_module(&bytes)), Ok(()));
    assert_eq!(call(&bytes, "_subject", vec![]), Ok(Some(Values::I32(42))));
}

#[test]
fn evaluate_add_simple() {
    let bytes = single(vec![I32, I32], vec![I32], vec![0], vec![0x20, 0, 0x20, 1, 0x6a, 0x0b]);
    assert_eq!(call(&bytes, "_subject", vec![Values::I32(3), Values::I32(4)]), Ok(Some(Values::I32(7))));
}

#[test]
fn evaluate_sub() {
    let bytes = single(vec![I32], vec![I32], vec![0], vec![0x41, 0xe4, 0x00, 0x20, 0, 0x6b, 0x0b]);
    assert_eq!(call(&bytes, "_subject", vec![Values::I32(10)]), Ok(Some(Values::I32(90))));
}

#[test]
fn evaluate_add_five() {
    let bytes = single(
        vec![I32, I32],
        vec![I32],
        vec![0],
        vec![0x20, 0, 0x20, 1, 0x6a, 0x41, 10, 0x6a, 0x0b],
    );
    assert_eq!(call(&bytes, "_subject", vec![Values::I32(3), Values::I32(4)]), Ok(Some(Values::I32(17))));
}

fn fib_module() -> Vec<u8> {
    single(
        vec![I32],
        vec![I32],
        vec![0],
        vec![
            0x20, 0, 0x41, 2, 0x48, 0x04, I32, 0x20, 0, 0x05, 0x20, 0, 0x41, 1, 0x6b, 0x10, 0, 0x20, 0, 0x41, 2,
            0x6b, 0x10, 0, 0x6a, 0x0b, 0x0b,
        ],
    )
}

#[test]
fn evaluate_fib() {
    assert_eq!(call(&fib_module(), "_subject", vec![Values::I32(15)]), Ok(Some(Values::I32(610))));
    assert_eq!(call(&fib_module(), "_subject", vec![Values::I32(1)]), Ok(Some(Values::I32(1))));
}

fn count_module() -> Vec<u8> {
    single(
        vec![I32],
        vec![I32],
        vec![1, 2, I32],
        vec![
            0x02, 0x40, 0x03, 0x40, 0x20, 1, 0x20, 0, 0x4e, 0x0d, 1, 0x20, 2, 0x20, 1, 0x20, 0, 0x6a, 0x6a, 0x21, 2,
            0x20, 1, 0x41, 1, 0x6a, 0x21, 1, 0x0c, 0, 0x0b, 0x0b, 0x20, 2, 0x0b,
        ],
    )
}

#[test]
fn evaluate_5_count() {
    assert_eq!(call(&count_module(), "_subject", vec![Values::I32(5)]), Ok(Some(Values::I32(35))));
}

#[test]
fn evaluate_10_count() {
    assert_eq!(call(&count_module(), "_subject", vec![Values::I32(10)]), Ok(Some(Values::I32(145))));
}

#[test]
fn evaluate_100_count() {
    assert_eq!(call(&count_module(), "_subject", vec![Values::I32(100)]), Ok(Some(Values::I32(14950))));
}

#[test]
fn evaluate_if_without_else() {
    // (x) -> { r = 1; if x == 0 { r = 2 }; r }
    let bytes = single(
        vec![I32],
        vec![I32],
        vec![1, 1, I32],
        vec![0x41, 1, 0x21, 1, 0x20, 0, 0x45, 0x04, 0x40, 0x41, 2, 0x21, 1, 0x0b, 0x20, 1, 0x0b],
    );
    assert_eq!(call(&bytes, "_subject", vec![Values::I32(0)]), Ok(Some(Values::I32(2))));
    assert_eq!(call(&bytes, "_subject", vec![Values::I32(5)]), Ok(Some(Values::I32(1))));
}

#[test]
fn evaluate_br_table() {
    // block block block (br_table 0 1 2 default 2 on x) ... ; returns 10, 20 or 30
    let bytes = single(
        vec![I32],
        vec![I32],
        vec![0],
        vec![
            0x02, 0x40, 0x02, 0x40, 0x02, 0x40, 0x20, 0, 0x0e, 2, 0, 1, 2, 0x0b, 0x41, 10, 0x0f, 0x0b, 0x41, 20, 0x0f,
            0x0b, 0x41, 30, 0x0b,
        ],
    );
    assert_eq!(call(&bytes, "_subject", vec![Values::I32(0)]), Ok(Some(Values::I32(10))));
    assert_eq!(call(&bytes, "_subject", vec![Values::I32(1)]), Ok(Some(Values::I32(20))));
    assert_eq!(call(&bytes, "_subject", vec![Values::I32(7)]), Ok(Some(Values::I32(30))));
    assert_eq!(call(&bytes, "_subject", vec![Values::I32(-1)]), Ok(Some(Values::I32(30))));
}

#[test]
fn evaluate_select_and_drop() {
    let bytes = single(
        vec![I32],
        vec![I32],
        vec![0],
        vec![0x41, 5, 0x1a, 0x41, 11, 0x41, 22, 0x20, 0, 0x1b, 0x0b],
    );
    assert_eq!(call(&bytes, "_subject", vec![Values::I32(1)]), Ok(Some(Values::I32(11))));
    assert_eq!(call(&bytes, "_subject", vec![Values::I32(0)]), Ok(Some(Values::I32(22))));
}

#[test]
fn evaluate_i64_arithmetic() {
    // (a: i64, b: i64) -> a * b + 1
    let bytes = single(vec![I64, I64], vec![I64], vec![0], vec![0x20, 0, 0x20, 1, 0x7e, 0x42, 1, 0x7c, 0x0b]);
    assert_eq!(
        call(&bytes, "_subject", vec![Values::I64(1 << 40), Values::I64(3)]),
        Ok(Some(Values::I64((3 << 40) + 1)))
    );
}

#[test]
fn evaluate_division_traps() {
    let div = single(vec![I32, I32], vec![I32], vec![0], vec![0x20, 0, 0x20, 1, 0x6d, 0x0b]);
    assert_eq!(call(&div, "_subject", vec![Values::I32(7), Values::I32(2)]), Ok(Some(Values::I32(3))));
    assert_eq!(call(&div, "_subject", vec![Values::I32(-7), Values::I32(2)]), Ok(Some(Values::I32(-3))));
    assert_eq!(call(&div, "_subject", vec![Values::I32(1), Values::I32(0)]), Err(Trap::DivisionByZero));
    assert_eq!(
        call(&div, "_subject", vec![Values::I32(i32::MIN), Values::I32(-1)]),
        Err(Trap::DivisionOverflow)
    );
}

#[test]
fn evaluate_unreachable() {
    let bytes = single(vec![], vec![], vec![0], vec![0x00, 0x0b]);
    assert_eq!(call(&bytes, "_subject", vec![]), Err(Trap::Unreachable));
}

#[test]
fn evaluate_no_result() {
    let bytes = single(vec![], vec![], vec![0], vec![0x01, 0x0b]);
    assert_eq!(call(&bytes, "_subject", vec![]), Ok(None));
}

fn memory_module() -> Vec<u8> {
    // memory of one page; data "\x01\x02\x03\x04" at 8; functions:
    // 0 load(addr) -> i32.load; 1 store(addr, v); 2 grow(n) -> memory.grow; 3 size() -> memory.size
    // 4 load8_s(addr)
    module(vec![
        types(vec![(vec![I32], vec![I32]), (vec![I32, I32], vec![]), (vec![], vec![I32])]),
        functions(vec![0, 1, 0, 2, 0]),
        section(5, vec_of(vec![vec![0x00, 1]])),
        exports(vec![("load", 0, 0), ("store", 0, 1), ("grow", 0, 2), ("size", 0, 3), ("load8_s", 0, 4)]),
        codes(vec![
            (vec![0], vec![0x20, 0, 0x28, 2, 0, 0x0b]),
            (vec![0], vec![0x20, 0, 0x20, 1, 0x36, 2, 0, 0x0b]),
            (vec![0], vec![0x20, 0, 0x40, 0, 0x0b]),
            (vec![0], vec![0x3f, 0, 0x0b]),
            (vec![0], vec![0x20, 0, 0x2c, 0, 0, 0x0b]),
        ]),
        section(11, vec_of(vec![vec![0, 0x41, 8, 0x0b, 4, 1, 2, 3, 0xff]])),
    ])
}

fn memory_vm() -> Vm {
    let section = decode_module(&memory_module());
    assert_eq!(validate_module(&section), Ok(()));
    instantiate_module(section, &ExternalModules::default()).unwrap()
}

fn invoke(vm: &mut Vm, name: &str, args: Vec<Values>) -> Result<Option<Values>, Trap> {
    match vm.invoke(name, &args)? {
        Invocation::Function => drive(vm),
        other => panic!("expected a function, got {:?}", other),
    }
}

#[test]
fn evaluate_memory_load_of_data() {
    let mut vm = memory_vm();
    assert_eq!(invoke(&mut vm, "load", vec![Values::I32(8)]), Ok(Some(Values::I32(0xff030201u32 as i32))));
    assert_eq!(invoke(&mut vm, "load", vec![Values::I32(0)]), Ok(Some(Values::I32(0))));
    assert_eq!(invoke(&mut vm, "load8_s", vec![Values::I32(11)]), Ok(Some(Values::I32(-1))));
    assert_eq!(invoke(&mut vm, "load8_s", vec![Values::I32(9)]), Ok(Some(Values::I32(2))));
}

#[test]
fn evaluate_memory_store_then_load() {
    let mut vm = memory_vm();
    assert_eq!(invoke(&mut vm, "store", vec![Values::I32(100), Values::I32(0x12345678)]), Ok(None));
    assert_eq!(invoke(&mut vm, "load", vec![Values::I32(100)]), Ok(Some(Values::I32(0x12345678))));
    assert_eq!(invoke(&mut vm, "load", vec![Values::I32(101)]), Ok(Some(Values::I32(0x00123456))));
}

#[test]
fn evaluate_memory_out_of_bounds() {
    let mut vm = memory_vm();
    assert_eq!(invoke(&mut vm, "load", vec![Values::I32(65533)]), Err(Trap::MemoryAccessOutOfBounds));
    assert_eq!(invoke(&mut vm, "load", vec![Values::I32(65532)]), Ok(Some(Values::I32(0))));
    assert_eq!(invoke(&mut vm, "load", vec![Values::I32(-1)]), Err(Trap::MemoryAccessOutOfBounds));
}

#[test]
fn evaluate_memory_grow_and_size() {
    let mut vm = memory_vm();
    assert_eq!(invoke(&mut vm, "size", vec![]), Ok(Some(Values::I32(1))));
    assert_eq!(invoke(&mut vm, "grow", vec![Values::I32(2)]), Ok(Some(Values::I32(1))));
    assert_eq!(invoke(&mut vm, "size", vec![]), Ok(Some(Values::I32(3))));
    assert_eq!(invoke(&mut vm, "load", vec![Values::I32(65536 * 2)]), Ok(Some(Values::I32(0))));
    assert_eq!(invoke(&mut vm, "grow", vec![Values::I32(70000)]), Ok(Some(Values::I32(-1))));
}

#[test]
fn evaluate_globals() {
    // global 0: mutable i32 = 7, exported; get() and set(v)
    let bytes = module(vec![
        types(vec![(vec![], vec![I32]), (vec![I32], vec![])]),
        functions(vec![0, 1]),
        section(6, vec_of(vec![vec![I32, 1, 0x41, 7, 0x0b]])),
        exports(vec![("get", 0, 0), ("set", 0, 1), ("g", 3, 0)]),
        codes(vec![(vec![0], vec![0x23, 0, 0x0b]), (vec![0], vec![0x20, 0, 0x24, 0, 0x0b])]),
    ]);
    let section = decode_module(&bytes);
    assert_eq!(validate_module(&section), Ok(()));
    let mut vm = instantiate_module(section, &ExternalModules::default()).unwrap();
    assert_eq!(invoke(&mut vm, "get", vec![]), Ok(Some(Values::I32(7))));
    assert_eq!(invoke(&mut vm, "set", vec![Values::I32(-3)]), Ok(None));
    assert_eq!(invoke(&mut vm, "get", vec![]), Ok(Some(Values::I32(-3))));
    assert_eq!(vm.invoke("g", &vec![]), Ok(Invocation::Global(Some(Values::I32(-3)))));
    assert_eq!(vm.invoke("missing", &vec![]), Ok(Invocation::NotFound));
}

#[test]
fn evaluate_call_indirect() {
    // table of 2 slots: slot 0 -> function 1 (returns 5), slot 1 left empty;
    // function 0 (i) -> call_indirect type 0 on i
    let bytes = module(vec![
        types(vec![(vec![], vec![I32]), (vec![I32], vec![I32])]),
        functions(vec![1, 0, 1]),
        section(4, vec_of(vec![vec![0x70, 0x00, 2]])),
        exports(vec![("dispatch", 0, 0), ("wrong", 0, 2)]),
        section(9, vec_of(vec![vec![0, 0x41, 0, 0x0b, 1, 1]])),
        codes(vec![
            (vec![0], vec![0x20, 0, 0x11, 0, 0x00, 0x0b]),
            (vec![0], vec![0x41, 5, 0x0b]),
            (vec![0], vec![0x41, 0, 0x20, 0, 0x11, 1, 0x00, 0x0b]),
        ]),
    ]);
    let section = decode_module(&bytes);
    assert_eq!(validate_module(&section), Ok(()));
    let mut vm = instantiate_module(section, &ExternalModules::default()).unwrap();
    assert_eq!(invoke(&mut vm, "dispatch", vec![Values::I32(0)]), Ok(Some(Values::I32(5))));
    assert_eq!(invoke(&mut vm, "dispatch", vec![Values::I32(1)]), Err(Trap::UninitializedElement));
    assert_eq!(invoke(&mut vm, "dispatch", vec![Values::I32(2)]), Err(Trap::UndefinedElement));
    assert_eq!(invoke(&mut vm, "wrong", vec![Values::I32(0)]), Err(Trap::IndirectCallTypeMismatch));
}

#[test]
fn evaluate_float_left_to_embedder() {
    // f32.const 1.5; f32.const 2.0; f32.add
    let bytes = single(
        vec![],
        vec![0x7d],
        vec![0],
        vec![0x43, 0x00, 0x00, 0xc0, 0x3f, 0x43, 0x00, 0x00, 0x00, 0x40, 0x92, 0x0b],
    );
    let section = decode_module(&bytes);
    let mut vm = instantiate_module(section, &ExternalModules::default()).unwrap();
    assert_eq!(vm.invoke("_subject", &vec![]), Ok(Invocation::Function));
    assert_eq!(vm.run(100), Ok(Outcome::Float(0x92)));
    let r = vm.pop_value().unwrap();
    let l = vm.pop_value().unwrap();
    assert_eq!((l, r), (Values::F32(1.5f32.to_bits()), Values::F32(2.0f32.to_bits())));
    vm.push_value(Values::F32(3.5f32.to_bits())).unwrap();
    assert_eq!(vm.run(100), Ok(Outcome::Finished));
    assert_eq!(vm.pop_value(), Ok(Values::F32(3.5f32.to_bits())));
}

#[test]
fn run_stops_when_fuel_runs_out() {
    // an endless loop
    let bytes = single(vec![], vec![], vec![0], vec![0x03, 0x40, 0x0c, 0, 0x0b, 0x0b]);
    let section = decode_module(&bytes);
    let mut vm = instantiate_module(section, &ExternalModules::default()).unwrap();
    assert_eq!(vm.invoke("_subject", &vec![]), Ok(Invocation::Function));
    assert_eq!(vm.run(1000), Ok(Outcome::Continue));
}

#[test]
fn deep_recursion_overflows_the_stack() {
    // f() -> f()
    let bytes = single(vec![], vec![], vec![0], vec![0x10, 0, 0x0b]);
    assert_eq!(call(&bytes, "_subject", vec![]), Err(Trap::StackOverflow));
}

#[test]
fn instantiate_rejects_unknown_imports() {
    // an imported function from "env"
    let bytes = module(vec![
        types(vec![(vec![], vec![])]),
        section(2, vec_of(vec![{
            let mut i = name("env");
            i.extend(name("f"));
            i.push(0);
            i.push(0);
            i
        }])),
    ]);
    let section = decode_module(&bytes);
    assert!(section.is_ok());
    assert_eq!(instantiate_module(section, &ExternalModules::default()).err(), Some(WasmError::Trap(Trap::UnknownImport)));
}

#[test]
fn instantiate_rejects_data_past_memory() {
    let bytes = module(vec![
        section(5, vec_of(vec![vec![0x00, 1]])),
        section(11, vec_of(vec![vec![0, 0x41, 0xff, 0xff, 0x03, 0x0b, 2, 1, 2]])),
    ]);
    assert_eq!(
        instantiate_module(decode_module(&bytes), &ExternalModules::default()).err(),
        Some(WasmError::Trap(Trap::DataSegmentDoesNotFit))
    );
}

#[test]
fn instantiate_rejects_elements_past_table() {
    let bytes = module(vec![
        types(vec![(vec![], vec![])]),
        functions(vec![0]),
        section(4, vec_of(vec![vec![0x70, 0x00, 1]])),
        section(9, vec_of(vec![vec![0, 0x41, 1, 0x0b, 1, 0]])),
        codes(vec![(vec![0], vec![0x0b])]),
    ]);
    assert_eq!(
        instantiate_module(decode_module(&bytes), &ExternalModules::default()).err(),
        Some(WasmError::Trap(Trap::ElementSegmentDoesNotFit))
    );
}

#[test]
fn instantiate_rejects_functions_without_code_types() {
    // a code entry with no function entry
    let bytes = module(vec![types(vec![(vec![], vec![])]), codes(vec![(vec![0], vec![0x0b])])]);
    assert_eq!(
        instantiate_module(decode_module(&bytes), &ExternalModules::default()).err(),
        Some(WasmError::Trap(Trap::FunctionAndCodeInconsitent))
    );
}

#[test]
fn validate_reports_type_mismatch() {
    let bytes = single(vec![], vec![I32], vec![0], vec![0x42, 1, 0x0b]);
    assert_eq!(validate_module(&decode_module(&bytes)), Err(WasmError::TypeError(TypeError::TypeMismatch)));
}

#[test]
fn validate_reports_unknown_local() {
    let bytes = single(vec![], vec![I32], vec![0], vec![0x20, 3, 0x0b]);
    assert_eq!(validate_module(&decode_module(&bytes)), Err(WasmError::TypeError(TypeError::UnknownLocal)));
}

#[test]
fn validate_reports_duplicate_export() {
    let bytes = module(vec![
        types(vec![(vec![], vec![])]),
        functions(vec![0]),
        exports(vec![("a", 0, 0), ("a", 0, 0)]),
        codes(vec![(vec![0], vec![0x0b])]),
    ]);
    assert_eq!(
        validate_module(&decode_module(&bytes)),
        Err(WasmError::TypeError(TypeError::DuplicateExportName))
    );
}

#[test]
fn decode_rejects_bad_headers() {
    assert_eq!(decode_module(&[0x01, 0x61, 0x73, 0x6d, 1, 0, 0, 0]).err(), Some(WasmError::Trap(Trap::MagicHeaderNotDetected)));
    assert_eq!(decode_module(&[0x00, 0x61, 0x73, 0x6d, 2, 0, 0, 0]).err(), Some(WasmError::Trap(Trap::UnsupportedTextform)));
    assert_eq!(decode_module(&[0x00, 0x61, 0x73]).err(), Some(WasmError::Trap(Trap::UnexpectedEnd)));
    assert!(decode_module(&[0x00, 0x61, 0x73, 0x6d, 1, 0, 0, 0]).is_ok());
}

#[test]
fn decode_rejects_unknown_section() {
    let bytes = module(vec![section(12, vec![])]);
    assert_eq!(decode_module(&bytes).err(), Some(WasmError::Trap(Trap::InvalidSectionId)));
}

#[test]
fn decoded_body_is_in_byte_form() {
    let bytes = single(vec![I32], vec![I32], vec![0], vec![0x20, 0, 0x41, 5, 0x6a, 0x0b]);
    let section = decode_module(&bytes).unwrap();
    let codes = section.get_codes();
    assert_eq!(codes.len(), 1);
    let (body, locals) = codes[0].as_ref().unwrap();
    assert_eq!(body, &vec![0x20, 0, 0, 0, 0, 0x41, 5, 0, 0, 0, 0x6a, 0x0b]);
    assert!(locals.is_empty());
    assert_eq!(section.get_functions(), &vec![0]);
    assert_eq!(section.get_function_types().len(), 1);
}

/// The registry with the `spectest` module under its name.
fn with_spectest() -> ExternalModules {
    let mut modules = ExternalModules::default();
    assert_eq!(modules.register_module(Some("spectest".to_owned()), create_spectest()), Ok(()));
    modules
}

/// An import entry: module name, name, kind and what follows the kind.
fn import(module_name: &str, field: &str, kind: u8, rest: Vec<u8>) -> Vec<u8> {
    let mut i = name(module_name);
    i.extend(name(field));
    i.push(kind);
    i.extend(rest);
    i
}

fn instantiate_with(bytes: &[u8], modules: &ExternalModules) -> Result<Vm, WasmError> {
    let section = decode_module(bytes);
    assert!(section.is_ok());
    instantiate_module(section, modules)
}

#[test]
fn link_spectest_global() {
    // imports spectest.global_i32 as global 0; exports it and a function reading it
    let bytes = module(vec![
        types(vec![(vec![], vec![I32])]),
        section(2, vec_of(vec![import("spectest", "global_i32", 3, vec![I32, 0])])),
        functions(vec![0]),
        exports(vec![("_subject", 0, 0), ("g", 3, 0)]),
        codes(vec![(vec![0], vec![0x23, 0, 0x0b])]),
    ]);
    let mut vm = instantiate_with(&bytes, &with_spectest()).unwrap();
    assert_eq!(invoke(&mut vm, "_subject", vec![]), Ok(Some(Values::I32(666))));
    assert_eq!(vm.invoke("g", &vec![]), Ok(Invocation::Global(Some(Values::I32(666)))));
}

#[test]
fn link_global_initialized_from_import() {
    // global 1 of the module starts as the value of imported global 0
    let bytes = module(vec![
        types(vec![(vec![], vec![I32])]),
        section(2, vec_of(vec![import("spectest", "global_i32", 3, vec![I32, 0])])),
        functions(vec![0]),
        section(6, vec_of(vec![vec![I32, 1, 0x23, 0, 0x0b]])),
        exports(vec![("_subject", 0, 0)]),
        codes(vec![(vec![0], vec![0x23, 1, 0x0b])]),
    ]);
    let mut vm = instantiate_with(&bytes, &with_spectest()).unwrap();
    assert_eq!(invoke(&mut vm, "_subject", vec![]), Ok(Some(Values::I32(666))));
}

#[test]
fn link_rejects_global_of_another_type() {
    let bytes = module(vec![section(2, vec_of(vec![import("spectest", "global_i32", 3, vec![I64, 0])]))]);
    assert_eq!(instantiate_with(&bytes, &with_spectest()).err(), Some(WasmError::Trap(Trap::IncompatibleImportType)));
}

#[test]
fn link_host_function_left_to_embedder() {
    // function 0 is spectest.print_i32; function 1 calls it with 7
    let bytes = module(vec![
        types(vec![(vec![I32], vec![]), (vec![], vec![])]),
        section(2, vec_of(vec![import("spectest", "print_i32", 0, vec![0])])),
        functions(vec![1]),
        exports(vec![("_subject", 0, 1), ("print", 0, 0)]),
        codes(vec![(vec![0], vec![0x41, 7, 0x10, 0, 0x0b])]),
    ]);
    let mut vm = instantiate_with(&bytes, &with_spectest()).unwrap();
    let host = vm.get_function_instance(&Indice(0)).unwrap();
    assert!(host.is_host());
    assert_eq!(host.get_export_name(), Some("print_i32".to_owned()));
    assert_eq!(host.get_source_module_name(), Some("spectest".to_owned()));
    assert_eq!(vm.invoke("_subject", &vec![]), Ok(Invocation::Function));
    assert_eq!(vm.run(100), Ok(Outcome::Host(0)));
    assert_eq!(vm.pop_value(), Ok(Values::I32(7)));
    assert_eq!(vm.run(100), Ok(Outcome::Finished));
    // invoked directly, the host function is handed over with its argument pushed
    assert_eq!(vm.invoke("print", &vec![Values::I32(9)]), Ok(Invocation::Host(0)));
    assert_eq!(vm.pop_value(), Ok(Values::I32(9)));
}

#[test]
fn link_rejects_function_of_another_type() {
    let bytes = module(vec![
        types(vec![(vec![], vec![])]),
        section(2, vec_of(vec![import("spectest", "print_i32", 0, vec![0])])),
    ]);
    assert_eq!(instantiate_with(&bytes, &with_spectest()).err(), Some(WasmError::Trap(Trap::IncompatibleImportType)));
}

#[test]
fn link_rejects_unknown_names() {
    let unknown_field = module(vec![
        types(vec![(vec![], vec![])]),
        section(2, vec_of(vec![import("spectest", "nope", 0, vec![0])])),
    ]);
    assert_eq!(instantiate_with(&unknown_field, &with_spectest()).err(), Some(WasmError::Trap(Trap::UnknownImport)));
    let unknown_module = module(vec![
        types(vec![(vec![], vec![])]),
        section(2, vec_of(vec![import("env", "print", 0, vec![0])])),
    ]);
    assert_eq!(instantiate_with(&unknown_module, &with_spectest()).err(), Some(WasmError::Trap(Trap::UnknownImport)));
    let missing_type = module(vec![section(2, vec_of(vec![import("spectest", "print", 0, vec![5])]))]);
    assert_eq!(instantiate_with(&missing_type, &with_spectest()).err(), Some(WasmError::Trap(Trap::Notfound)));
}

#[test]
fn link_spectest_memory() {
    // imports spectest.memory with limits 1..2, writes 1 2 3 4 at 0
    let bytes = module(vec![
        types(vec![(vec![], vec![I32])]),
        section(2, vec_of(vec![import("spectest", "memory", 2, vec![1, 1, 2])])),
        functions(vec![0, 0]),
        exports(vec![("load", 0, 0), ("size", 0, 1)]),
        codes(vec![(vec![0], vec![0x41, 0, 0x28, 2, 0, 0x0b]), (vec![0], vec![0x3f, 0, 0x0b])]),
        section(11, vec_of(vec![vec![0, 0x41, 0, 0x0b, 4, 1, 2, 3, 4]])),
    ]);
    let mut vm = instantiate_with(&bytes, &with_spectest()).unwrap();
    assert_eq!(invoke(&mut vm, "load", vec![]), Ok(Some(Values::I32(0x04030201))));
    assert_eq!(invoke(&mut vm, "size", vec![]), Ok(Some(Values::I32(1))));
}

#[test]
fn link_rejects_memory_beyond_limits() {
    // asks for at least 2 pages of a memory of 1 to 2
    let bytes = module(vec![section(2, vec_of(vec![import("spectest", "memory", 2, vec![1, 2, 2])]))]);
    assert_eq!(instantiate_with(&bytes, &with_spectest()).err(), Some(WasmError::Trap(Trap::IncompatibleImportType)));
    // data past the page of the imported memory
    let past = module(vec![
        section(2, vec_of(vec![import("spectest", "memory", 2, vec![1, 1, 2])])),
        section(11, vec_of(vec![vec![0, 0x41, 0xff, 0xff, 0x03, 0x0b, 2, 1, 2]])),
    ]);
    assert_eq!(instantiate_with(&past, &with_spectest()).err(), Some(WasmError::Trap(Trap::DataSegmentDoesNotFit)));
}

#[test]
fn link_spectest_table() {
    // imports spectest.table (10 slots); slot 3 names function 0, which returns 42
    let bytes = module(vec![
        types(vec![(vec![], vec![I32])]),
        section(2, vec_of(vec![import("spectest", "table", 1, vec![0x70, 0, 10])])),
        functions(vec![0, 0]),
        exports(vec![("_subject", 0, 1)]),
        section(9, vec_of(vec![vec![0, 0x41, 3, 0x0b, 1, 0]])),
        codes(vec![(vec![0], vec![0x41, 42, 0x0b]), (vec![0], vec![0x41, 3, 0x11, 0, 0x00, 0x0b])]),
    ]);
    let mut vm = instantiate_with(&bytes, &with_spectest()).unwrap();
    assert_eq!(invoke(&mut vm, "_subject", vec![]), Ok(Some(Values::I32(42))));
}

#[test]
fn link_rejects_table_beyond_limits() {
    let bytes = module(vec![section(2, vec_of(vec![import("spectest", "table", 1, vec![0x70, 0, 11])]))]);
    assert_eq!(instantiate_with(&bytes, &with_spectest()).err(), Some(WasmError::Trap(Trap::IncompatibleImportType)));
    let wrong_name = module(vec![section(2, vec_of(vec![import("spectest", "tables", 1, vec![0x70, 0, 10])]))]);
    assert_eq!(instantiate_with(&wrong_name, &with_spectest()).err(), Some(WasmError::Trap(Trap::UnknownImport)));
}

#[test]
fn register_module_refuses_the_thirty_third_name() {
    let mut modules = ExternalModules::default();
    for i in 0..32 {
        assert_eq!(modules.register_module(Some(format!("m{}", i)), ExternalModule::default()), Ok(()));
    }
    assert_eq!(
        modules.register_module(Some("one more".to_owned()), ExternalModule::default()),
        Err(WasmError::Trap(Trap::LinearMapOverflowed))
    );
    assert!(modules.get(&Some("one more".to_owned())).is_none());
    // a name already there is replaced
    assert_eq!(modules.register_module(Some("m3".to_owned()), create_spectest()), Ok(()));
    assert_eq!(modules.get(&Some("m3".to_owned())).unwrap().function_instances.len(), 6);
}

#[test]
fn spectest_exports_print_functions() {
    let spectest = create_spectest();
    let names: Vec<Option<String>> = spectest.function_instances.iter().map(FunctionInstance::get_export_name).collect();
    assert_eq!(
        names,
        vec![
            Some("print".to_owned()),
            Some("print_i32".to_owned()),
            Some("print_i32_f32".to_owned()),
            Some("print_f64_f64".to_owned()),
            Some("print_f32".to_owned()),
            Some("print_f64".to_owned()),
        ]
    );
    assert!(spectest.function_instances.iter().all(FunctionInstance::is_host));
}

#[test]
fn export_module_links_to_another_instance() {
    // module a: function "f" gives 5, global "g" is the constant 11
    let a = module(vec![
        types(vec![(vec![], vec![I32])]),
        functions(vec![0]),
        section(6, vec_of(vec![vec![I32, 0, 0x41, 11, 0x0b]])),
        exports(vec![("f", 0, 0), ("g", 3, 0)]),
        codes(vec![(vec![0], vec![0x41, 5, 0x0b])]),
    ]);
    let vm_a = instantiate_with(&a, &ExternalModules::default()).unwrap();
    let mut modules = ExternalModules::default();
    assert_eq!(modules.register_module(Some("a".to_owned()), vm_a.export_module()), Ok(()));
    // module b imports a.f and a.g, and adds them
    let b = module(vec![
        types(vec![(vec![], vec![I32])]),
        section(
            2,
            vec_of(vec![import("a", "f", 0, vec![0]), import("a", "g", 3, vec![I32, 0])]),
        ),
        functions(vec![0]),
        exports(vec![("_subject", 0, 1)]),
        codes(vec![(vec![0], vec![0x10, 0, 0x23, 0, 0x6a, 0x0b])]),
    ]);
    let mut vm_b = instantiate_with(&b, &modules).unwrap();
    // a.f keeps its body and runs in the machine of module b
    let f = vm_b.get_function_instance(&Indice(0)).unwrap();
    assert!(!f.is_host());
    assert_eq!(f.get_source_module_name(), Some("a".to_owned()));
    assert_eq!(f.get_export_name(), Some("f".to_owned()));
    assert_eq!(vm_b.invoke("_subject", &vec![]), Ok(Invocation::Function));
    assert_eq!(vm_b.run(100), Ok(Outcome::Finished));
    assert_eq!(vm_b.pop_value(), Ok(Values::I32(16)));
}

#[test]
fn external_modules_lookups() {
    let modules = with_spectest();
    let spectest = Some("spectest".to_owned());
    let table = modules.get_table_instance(&spectest, &Indice(0)).unwrap();
    assert_eq!(table.len(), 10);
    assert_eq!(table.get_function_instance(0), Err(WasmError::Trap(Trap::UninitializedElement)));
    assert_eq!(table.get_function_instance(10), Err(WasmError::Trap(Trap::UndefinedElement)));
    // a segment of two entries from slot 9 does not fit ten slots
    let segment = Element { table_idx: 0, offset: vec![0x41, 9, 0, 0, 0], init: vec![0, 0] };
    assert_eq!(
        TableInstance::validate(&vec![segment], &table.table_type(), &vec![], 1),
        Err(WasmError::Trap(Trap::ElementSegmentDoesNotFit))
    );
    let fits = Element { table_idx: 0, offset: vec![0x41, 8, 0, 0, 0], init: vec![0, 0] };
    assert_eq!(TableInstance::validate(&vec![fits], &table.table_type(), &vec![], 1), Ok(()));
    assert_eq!(modules.get_table_instance(&spectest, &Indice(1)).err(), Some(WasmError::Trap(Trap::Notfound)));
    assert_eq!(
        modules.get_table_instance(&Some("env".to_owned()), &Indice(0)).err(),
        Some(WasmError::Trap(Trap::UnknownImport))
    );
    let print = modules.get_function_instance(&spectest, 1).unwrap();
    assert_eq!(print.get_export_name(), Some("print_i32".to_owned()));
    assert_eq!(print.get_arity(), 1);
    assert_eq!(modules.get_function_instance(&spectest, 6).err(), Some(WasmError::Trap(Trap::Notfound)));
    // spectest declares no function types of its own
    assert_eq!(modules.get_function_type(&spectest, 0).err(), Some(WasmError::Trap(Trap::Notfound)));
    assert_eq!(modules.get_function_type(&None, 0).err(), Some(WasmError::Trap(Trap::UnknownImport)));
}

#[test]
fn evaluate_trapping_store_leaves_memory() {
    let mut vm = memory_vm();
    // four bytes at 65534 reach past the page
    assert_eq!(
        invoke(&mut vm, "store", vec![Values::I32(65534), Values::I32(0x01020304)]),
        Err(Trap::MemoryAccessOutOfBounds)
    );
    assert_eq!(invoke(&mut vm, "load8_s", vec![Values::I32(65534)]), Ok(Some(Values::I32(0))));
    assert_eq!(invoke(&mut vm, "load8_s", vec![Values::I32(65535)]), Ok(Some(Values::I32(0))));
}

#[test]
fn validate_gives_each_function_its_own_locals() {
    // function 0 takes an i64; function 1 returns its own i32 parameter
    let bytes = module(vec![
        types(vec![(vec![I64], vec![]), (vec![I32], vec![I32])]),
        functions(vec![0, 1]),
        codes(vec![(vec![0], vec![0x0b]), (vec![0], vec![0x20, 0, 0x0b])]),
    ]);
    assert_eq!(validate_module(&decode_module(&bytes)), Ok(()));
}

#[test]
fn validate_rejects_any_repeated_export_name() {
    let bytes = module(vec![
        types(vec![(vec![], vec![])]),
        functions(vec![0]),
        exports(vec![("a", 0, 0), ("b", 0, 0), ("a", 0, 0)]),
        codes(vec![(vec![0], vec![0x0b])]),
    ]);
    assert_eq!(validate_module(&decode_module(&bytes)), Err(WasmError::TypeError(TypeError::DuplicateExportName)));
}
