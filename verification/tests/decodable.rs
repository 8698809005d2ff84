use wasvm::byte::Byte;
use wasvm::decodable::{AbstractDecodable, SignedIntegerDecodable, U32Decodable};
use wasvm::error::{Trap, WasmError};

#[test]
fn decode_i32_positive() {
    assert_eq!(
        // 128
        Byte::new(vec![0x80, 0x01]).decode_leb128_i32(),
        Ok(128)
    );
}

#[test]
fn decode_i32_negative() {
    assert_eq!(
        // -128
        Byte::new(vec![0x80, 0x7f]).decode_leb128_i32(),
        Ok(-128)
    );
}

#[test]
fn decode_i32_min() {
    assert_eq!(
        // -2147483648
        Byte::new(vec![0x80, 0x80, 0x80, 0x80, 0x78]).decode_leb128_i32(),
        Ok(std::i32::MIN)
    );
}

#[test]
fn decode_i32_max() {
    assert_eq!(
        // 2147483647
        Byte::new(vec![0xff, 0xff, 0xff, 0xff, 0x07]).decode_leb128_i32(),
        Ok(std::i32::MAX)
    );
}

#[test]
fn decode_i64_min() {
    assert_eq!(
        // -9223372036854775808
        Byte::new(vec![0x80, 0x80, 0x80, 0x80, 0x80, 0x80, 0x80, 0x80, 0x80, 0x7f]).decode_leb128_i64(),
        Ok(std::i64::MIN)
    );
}

#[test]
fn decode_i64_max() {
    assert_eq!(
        // 9223372036854775807
        Byte::new(vec![0xff, 0xff, 0xff, 0xff, 0xff, 0xff, 0xff, 0xff, 0xff, 0x00]).decode_leb128_i64(),
        Ok(std::i64::MAX)
    );
}

#[test]
fn decode_u32_values() {
    assert_eq!(Byte::new(vec![0x00]).decode_leb128_u32(), Ok(0));
    assert_eq!(Byte::new(vec![0xe5, 0x8e, 0x26]).decode_leb128_u32(), Ok(624485));
    assert_eq!(Byte::new(vec![0xff, 0xff, 0xff, 0xff, 0x0f]).decode_leb128_u32(), Ok(u32::MAX));
}

#[test]
fn decode_u32_unexpected_end() {
    assert_eq!(
        Byte::new(vec![0x80, 0x80]).decode_leb128_u32(),
        Err(WasmError::Trap(Trap::UnexpectedEnd))
    );
}

#[test]
fn decode_u32_too_long() {
    assert_eq!(
        Byte::new(vec![0x80, 0x80, 0x80, 0x80, 0x80, 0x00]).decode_leb128_u32(),
        Err(WasmError::Trap(Trap::IntegerRepresentationTooLong))
    );
}

#[test]
fn decode_i32_small_negative() {
    assert_eq!(Byte::new(vec![0x7f]).decode_leb128_i32(), Ok(-1));
    assert_eq!(Byte::new(vec![0x3f]).decode_leb128_i32(), Ok(63));
    assert_eq!(Byte::new(vec![0x40]).decode_leb128_i32(), Ok(-64));
}

#[test]
fn decode_section_takes_the_section_out() {
    // a size of one, then that byte, then one more
    let mut b = Byte::new(vec![0x01, 0xaa, 0xbb]);
    assert_eq!(b.decode_section(), Ok(vec![0xaa]));
    assert_eq!(b.bytes(), &vec![0x01, 0xbb]);
    assert_eq!(b.byte_ptr(), 1);
}

#[test]
fn decode_section_past_the_end() {
    let mut b = Byte::new(vec![0x05, 0xaa]);
    assert_eq!(b.decode_section(), Err(WasmError::Trap(Trap::LengthOutofBounds)));
    assert_eq!(b.bytes(), &vec![0x05, 0xaa]);
    assert_eq!(b.byte_ptr(), 1);
}

#[test]
fn decode_u32_shortest_encoding_round_trip() {
    // 624485 is e5 8e 26; the byte after it is not read
    let mut b = Byte::new(vec![0xe5, 0x8e, 0x26, 0x7f]);
    assert_eq!(b.decode_leb128_u32(), Ok(624485));
    assert_eq!(b.byte_ptr(), 3);
    let mut max = Byte::new(vec![0xff, 0xff, 0xff, 0xff, 0x0f]);
    assert_eq!(max.decode_leb128_u32(), Ok(u32::MAX));
    assert_eq!(max.byte_ptr(), 5);
}
