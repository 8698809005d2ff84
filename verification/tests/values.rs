use wasvm::error::Trap;
use wasvm::value::Values;
use wasvm::value_type::ValueTypes;
use wasvm::vm::{apply_binary, apply_unary};
use wasvm::vm_spec::{BinOp, UnOp};

#[test]
fn value_arithmetic_wraps() {
    assert_eq!(Values::I32(i32::MAX).add(&Values::I32(1)), Values::I32(i32::MIN));
    assert_eq!(Values::I64(0).sub(&Values::I64(1)), Values::I64(-1));
    assert_eq!(Values::I32(0x10000).mul(&Values::I32(0x10000)), Values::I32(0));
}

#[test]
fn value_division() {
    assert_eq!(Values::I32(-7).div_s(&Values::I32(2)), Ok(Values::I32(-3)));
    assert_eq!(Values::I32(-7).div_u(&Values::I32(2)), Ok(Values::I32(0x7ffffffc)));
    assert_eq!(Values::I32(-7).rem_s(&Values::I32(2)), Ok(Values::I32(-1)));
    assert_eq!(Values::I32(-7).rem_u(&Values::I32(2)), Ok(Values::I32(1)));
    assert_eq!(Values::I64(5).div_s(&Values::I64(0)), Err(Trap::DivisionByZero));
    assert_eq!(Values::I64(i64::MIN).div_s(&Values::I64(-1)), Err(Trap::DivisionOverflow));
    assert_eq!(Values::I64(i64::MIN).rem_s(&Values::I64(-1)), Ok(Values::I64(0)));
    assert_eq!(Values::I32(5).rem_u(&Values::I32(0)), Err(Trap::DivisionByZero));
}

#[test]
fn value_comparisons() {
    assert_eq!(Values::I32(-1).less_than(&Values::I32(1)), Values::I32(1));
    assert_eq!(Values::I32(-1).less_than_unsign(&Values::I32(1)), Values::I32(0));
    assert_eq!(Values::I64(3).greater_than_equal(&Values::I64(3)), Values::I32(1));
    assert_eq!(Values::I64(-3).greater_than_unsign(&Values::I64(3)), Values::I32(1));
    assert_eq!(Values::I32(4).equal(&Values::I32(4)), Values::I32(1));
    assert_eq!(Values::I32(4).not_equal(&Values::I32(4)), Values::I32(0));
    assert_eq!(Values::I64(0).equal_zero(), Values::I32(1));
    assert_eq!(Values::I32(9).equal_zero(), Values::I32(0));
}

#[test]
fn value_bits() {
    assert_eq!(Values::I32(1).shift_left(&Values::I32(35)), Values::I32(8));
    assert_eq!(Values::I32(-16).shift_right_sign(&Values::I32(2)), Values::I32(-4));
    assert_eq!(Values::I32(-16).shift_right_unsign(&Values::I32(28)), Values::I32(0xf));
    assert_eq!(Values::I32(0x8000_0001u32 as i32).wasm_rotate_left(&Values::I32(1)), Values::I32(3));
    assert_eq!(Values::I32(3).wasm_rotate_right(&Values::I32(1)), Values::I32(0x8000_0001u32 as i32));
    assert_eq!(Values::I64(1).wasm_rotate_right(&Values::I64(1)), Values::I64(i64::MIN));
    assert_eq!(Values::I32(1).count_leading_zero(), Values::I32(31));
    assert_eq!(Values::I32(0).count_leading_zero(), Values::I32(32));
    assert_eq!(Values::I32(8).count_trailing_zero(), Values::I32(3));
    assert_eq!(Values::I64(0).count_trailing_zero(), Values::I64(64));
    assert_eq!(Values::I64(-1).pop_count(), Values::I64(64));
    assert_eq!(Values::I32(0x0f0f).pop_count(), Values::I32(8));
    assert_eq!(Values::I32(6).and(&Values::I32(3)), Values::I32(2));
    assert_eq!(Values::I32(6).or(&Values::I32(3)), Values::I32(7));
    assert_eq!(Values::I32(6).xor(&Values::I32(3)), Values::I32(5));
}

#[test]
fn value_conversions() {
    assert_eq!(Values::I32(-1).extend_i32_to_i64(), Values::I64(-1));
    assert_eq!(Values::I32(-1).extend_u32_to_i64(), Values::I64(0xffff_ffff));
    assert_eq!(Values::I64(0x1_0000_0005).wrap_i64_to_i32(), Values::I32(5));
    assert_eq!(Values::F32(1.0f32.to_bits()).reinterpret(), Values::I32(0x3f80_0000));
    assert_eq!(Values::I64(-1).reinterpret().reinterpret(), Values::I64(-1));
    assert!(Values::I32(2).is_truthy());
    assert!(!Values::I32(0).is_truthy());
    assert_eq!(Values::F64(0).value_type(), ValueTypes::F64);
}

#[test]
fn apply_checks_operand_types() {
    assert_eq!(apply_binary(BinOp::Add, Values::I32(1), Values::I64(1)), Err(Trap::TypeMismatch));
    assert_eq!(apply_binary(BinOp::GeU, Values::I32(-1), Values::I32(0)), Ok(Values::I32(1)));
    assert_eq!(apply_unary(UnOp::Wrap, Values::I32(1)), Err(Trap::TypeMismatch));
    assert_eq!(apply_unary(UnOp::ExtendU, Values::I32(-2)), Ok(Values::I64(0xffff_fffe)));
}
