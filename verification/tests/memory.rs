use std::cmp::Ordering;
use wasvm::limit_order::limit_cmp;
use wasvm::error::{Trap, WasmError};
use wasvm::global::{GlobalInstance, GlobalInstances, GlobalType};
use wasvm::memory::{Limit, MemoryInstance};
use wasvm::sec_data::Data;
use wasvm::value::Values;
use wasvm::value_type::ValueTypes;

fn data(offset: Vec<u8>, init: Vec<u8>) -> Data {
    Data { memidx: 0, offset, init }
}

#[test]
fn memory_new_places_data_segments() {
    let globals = GlobalInstances::new(vec![GlobalInstance::new(GlobalType::Const(ValueTypes::I32), Values::I32(16), None)]);
    let datas = vec![
        data(vec![0x41, 4, 0, 0, 0, 0x0b], vec![0xaa, 0xbb]),
        data(vec![0x23, 0, 0, 0, 0, 0x0b], vec![0x01]),
    ];
    let mut m = MemoryInstance::new(datas, Limit::NoUpperLimit(1), None, &globals).unwrap();
    assert_eq!(m.size_by_pages(), 1);
    assert_eq!(m.load_data_32(4, 6), 0xbbaa);
    assert_eq!(m.load_data_32(16, 17), 1);
    assert_eq!(m.load_data_64(8, 16), 0);
    assert_eq!(m.load_data_64(0, 8), 0x0000_bbaa_0000_0000);
}

#[test]
fn memory_new_rejects_segment_past_size() {
    let globals = GlobalInstances::empty();
    let datas = vec![data(vec![0x41, 0xff, 0xff, 0, 0, 0x0b], vec![1, 2])];
    assert_eq!(
        MemoryInstance::new(datas, Limit::NoUpperLimit(1), None, &globals).err(),
        Some(WasmError::Trap(Trap::DataSegmentDoesNotFit))
    );
}

#[test]
fn memory_store_then_load() {
    let globals = GlobalInstances::empty();
    let mut m = MemoryInstance::new(vec![], Limit::NoUpperLimit(1), None, &globals).unwrap();
    m.store_data(10, 14, &Values::I32(0x0102_0304));
    assert_eq!(m.load_data_32(10, 14), 0x0102_0304);
    assert_eq!(m.load_data_32(10, 11), 0x04);
    m.store_data(20, 28, &Values::I64(-2));
    assert_eq!(m.load_data_64(20, 28), 0xffff_ffff_ffff_fffe);
    m.store_data(30, 31, &Values::I64(0x1234));
    assert_eq!(m.load_data_32(30, 32), 0x34);
}

#[test]
fn memory_grow_within_limits() {
    let globals = GlobalInstances::empty();
    let mut m = MemoryInstance::new(vec![], Limit::HasUpperLimit(1, 2), None, &globals).unwrap();
    assert!(m.memory_grow(1).is_ok());
    assert_eq!(m.size_by_pages(), 2);
    assert_eq!(m.memory_grow(1), Err(WasmError::Trap(Trap::FailToGrow)));
    assert_eq!(m.size_by_pages(), 2);
    assert!(m.data_size_smaller_than(2 * 65536 + 1));
    assert!(!m.data_size_smaller_than(2 * 65536));
}

#[test]
fn memory_limit_order() {
    let globals = GlobalInstances::empty();
    let m = MemoryInstance::new(vec![], Limit::HasUpperLimit(1, 2), None, &globals).unwrap();
    assert!(!m.limit_gt(&Limit::HasUpperLimit(1, 2)));
    assert!(m.limit_gt(&Limit::HasUpperLimit(2, 2)));
    assert!(m.limit_within(&Limit::HasUpperLimit(1, 2)));
    assert!(m.limit_within(&Limit::NoUpperLimit(0)));
    assert!(!m.limit_within(&Limit::HasUpperLimit(2, 2)));
}

#[test]
fn limit_order_is_dual() {
    let (a, b) = (Limit::HasUpperLimit(2, 10), Limit::HasUpperLimit(1, 5));
    assert_eq!(limit_cmp(&a, &b), None);
    assert_eq!(limit_cmp(&b, &a), None);
    let (wide, narrow) = (Limit::HasUpperLimit(1, 10), Limit::HasUpperLimit(2, 5));
    assert_eq!(limit_cmp(&wide, &narrow), Some(Ordering::Greater));
    assert_eq!(limit_cmp(&narrow, &wide), Some(Ordering::Less));
    assert_eq!(limit_cmp(&Limit::NoUpperLimit(1), &narrow), Some(Ordering::Greater));
    assert_eq!(limit_cmp(&narrow, &Limit::NoUpperLimit(1)), Some(Ordering::Less));
    assert_eq!(limit_cmp(&narrow, &narrow), Some(Ordering::Equal));
}

#[test]
fn narrower_loads_after_a_64_bit_store() {
    let globals = GlobalInstances::empty();
    let mut m = MemoryInstance::new(vec![], Limit::NoUpperLimit(1), None, &globals).unwrap();
    let v: i64 = 0x0102_0304_0506_0708;
    m.store_data(16, 24, &wasvm::value::Values::I64(v));
    assert_eq!(m.load_data_64(16, 24), v as u64);
    assert_eq!(m.load_data_64(16, 19), 0x06_0708);
    assert_eq!(m.load_data_64(16, 17), 0x08);
    assert_eq!(m.load_data_64(24, 32), 0);
}
