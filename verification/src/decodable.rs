//! Reading bytes, LEB128 integers, limits and names from a byte cursor.
use vstd::prelude::*;
use vstd::arithmetic::power2::*;
use vstd::arithmetic::div_mod::*;
use vstd::arithmetic::mul::*;
use vstd::bits::*;
use vstd::utf8::*;
use crate::error::{Trap, WasmError, WasmResult, trap_result};
use crate::memory::Limit;
use crate::value_type::{ValueTypes, spec_value_type};

verus! {

/// A cursor over a byte vector: the bytes and the position of the next byte.
pub trait AbstractDecodable {
    /// The bytes that the cursor reads.
    spec fn spec_bytes(&self) -> Seq<u8>;

    /// The position of the next byte to read.
    spec fn spec_ptr(&self) -> nat;

    fn bytes(&self) -> (r: &Vec<u8>)
        ensures
            r@ == self.spec_bytes(),
    ;

    fn byte_ptr(&self) -> (r: usize)
        ensures
            r as nat == self.spec_ptr(),
    ;

    fn increment_ptr(&mut self)
        requires
            old(self).spec_ptr() < usize::MAX,
        ensures
            final(self).spec_ptr() == old(self).spec_ptr() + 1,
            final(self).spec_bytes() == old(self).spec_bytes(),
    ;
}

/// The byte at position `ptr` of `bytes`, if there is one.
pub open spec fn byte_at(bytes: Seq<u8>, ptr: nat) -> Option<u8> {
    if ptr < bytes.len() {
        Some(bytes[ptr as int])
    } else {
        None
    }
}


/// How a run of LEB128 bytes starting at `ptr` ends, looking at its `k`-th byte:
/// `Done(n)` when the `n`-th byte is the first one below 0x80,
/// `OutOfBytes(n)` when the bytes end while the `n`-th byte is wanted, and
/// `TooLong` when more than `max` bytes would be needed.
pub enum LebEnd {
    Done(nat),
    OutOfBytes(nat),
    TooLong,
}

/// Scans the LEB128 group that starts at `ptr`, from its `k`-th byte on.
pub open spec fn leb128_scan(bytes: Seq<u8>, ptr: nat, k: nat, max: nat) -> LebEnd
    decreases max - k,
{
    if ptr + k >= bytes.len() {
        LebEnd::OutOfBytes(k + 1)
    } else if k >= max {
        LebEnd::TooLong
    } else if bytes[(ptr + k) as int] < 128 {
        LebEnd::Done(k + 1)
    } else {
        leb128_scan(bytes, ptr, k + 1, max)
    }
}

/// The 7-bit payloads of the `n` bytes at `ptr`, least significant group first.
pub open spec fn leb128_payload(bytes: Seq<u8>, ptr: nat, n: nat) -> nat
    decreases n,
{
    if n == 0 {
        0
    } else {
        leb128_payload(bytes, ptr, (n - 1) as nat) + (bytes[(ptr + n - 1) as int] % 128) as nat * pow2(
            (7 * (n - 1)) as nat,
        )
    }
}

/// The most LEB128 bytes that an integer of `width` bits may take.
pub open spec fn leb128_max_len(width: nat) -> nat {
    if width == 32 {
        5
    } else {
        10
    }
}

/// Unsigned LEB128 decoding of an integer of `width` bits (32 or 64) at `ptr`:
/// the value, reduced to `width` bits, and seven times the number of bytes read;
/// with the position after the bytes that were read.
pub open spec fn spec_leb128_unsigned(bytes: Seq<u8>, ptr: nat, width: nat) -> (
    Result<(nat, nat), Trap>,
    nat,
) {
    let max = leb128_max_len(width);
    match leb128_scan(bytes, ptr, 0, max) {
        LebEnd::Done(n) => (Ok((leb128_payload(bytes, ptr, n) % pow2(width), 7 * n)), ptr + n),
        LebEnd::OutOfBytes(n) => (Err(Trap::UnexpectedEnd), ptr + n),
        LebEnd::TooLong => (Err(Trap::IntegerRepresentationTooLong), ptr + max + 1),
    }
}

/// `v`, read as a two's complement number of `bits` bits.
pub open spec fn sign_extend(v: nat, bits: nat) -> int {
    if bits > 0 && v >= pow2((bits - 1) as nat) {
        v - pow2(bits)
    } else {
        v as int
    }
}

/// Signed LEB128 decoding: the unsigned payload read as two's complement over the
/// bits that were read, or over all `width` bits when the encoding has the most bytes.
pub open spec fn spec_leb128_signed(bytes: Seq<u8>, ptr: nat, width: nat) -> (
    Result<int, Trap>,
    nat,
) {
    let (r, p) = spec_leb128_unsigned(bytes, ptr, width);
    match r {
        Ok((v, shift)) => (Ok(sign_extend(v, if shift > width { width } else { shift })), p),
        Err(e) => (Err(e), p),
    }
}

/// Reads one byte and moves past it; past the end it gives `None` and still moves.
pub trait U8Iterator: AbstractDecodable {
    fn next(&mut self) -> (r: Option<u8>)
        requires
            old(self).spec_ptr() < usize::MAX,
        ensures
            r == byte_at(old(self).spec_bytes(), old(self).spec_ptr()),
            final(self).spec_ptr() == old(self).spec_ptr() + 1,
            final(self).spec_bytes() == old(self).spec_bytes(),
    {
        let ptr = self.byte_ptr();
        let bytes = self.bytes();
        let el = if ptr < bytes.len() {
            Some(bytes[ptr])
        } else {
            None
        };
        self.increment_ptr();
        el
    }
}


/// The outcome of an unsigned LEB128 decoding as the library returns it.
pub open spec fn leb128_result_u32(r: WasmResult<(u32, u32)>, sr: Result<(nat, nat), Trap>) -> bool {
    match sr {
        Ok((v, s)) => r == Ok::<(u32, u32), WasmError>((v as u32, s as u32)),
        Err(e) => r == Err::<(u32, u32), WasmError>(WasmError::Trap(e)),
    }
}

/// The outcome of an unsigned LEB128 decoding of 64 bits as the library returns it.
pub open spec fn leb128_result_u64(r: WasmResult<(u64, u32)>, sr: Result<(nat, nat), Trap>) -> bool {
    match sr {
        Ok((v, s)) => r == Ok::<(u64, u32), WasmError>((v as u64, s as u32)),
        Err(e) => r == Err::<(u64, u32), WasmError>(WasmError::Trap(e)),
    }
}

/// Decoding of unsigned LEB128 integers; each also returns seven times the
/// number of bytes it read.
pub trait Leb128Decodable: U8Iterator {
    fn decode_leb128_u32_internal(&mut self) -> (r: WasmResult<(u32, u32)>)
        requires
            old(self).spec_ptr() + 6 < usize::MAX,
        ensures
            final(self).spec_bytes() == old(self).spec_bytes(),
            final(self).spec_ptr() == spec_leb128_unsigned(
                old(self).spec_bytes(),
                old(self).spec_ptr(),
                32,
            ).1,
            leb128_result_u32(
                r,
                spec_leb128_unsigned(old(self).spec_bytes(), old(self).spec_ptr(), 32).0,
            ),
    {
        let ghost bytes = self.spec_bytes();
        let ghost start = self.spec_ptr();
        let mut buf: u32 = 0;
        let mut shift: u32 = 0;
        let ghost mut k: nat = 0;
        proof {
            lemma2_to64();
        }
        loop
            invariant_except_break
                leb128_scan(bytes, start, 0, 5) == leb128_scan(bytes, start, k, 5),
                k < 5 ==> buf as nat == leb128_payload(bytes, start, k),
            invariant
                self.spec_bytes() == bytes,
                bytes == old(self).spec_bytes(),
                start == old(self).spec_ptr(),
                start + 6 < usize::MAX,
                k <= 5,
                shift == 7 * k,
                self.spec_ptr() == start + k,
                spec_leb128_unsigned(bytes, start, 32).1 == match leb128_scan(bytes, start, 0, 5) {
                    LebEnd::Done(n) => start + n,
                    LebEnd::OutOfBytes(n) => start + n,
                    LebEnd::TooLong => start + 6,
                },
            ensures
                leb128_scan(bytes, start, 0, 5) == LebEnd::Done(k),
                buf as nat == leb128_payload(bytes, start, k) % pow2(32),
            decreases 5 - k,
        {
            let raw_code = match self.next() {
                Some(b) => b,
                None => {
                    assert(leb128_scan(bytes, start, k, 5) == LebEnd::OutOfBytes(k + 1));
                    return Err(WasmError::Trap(Trap::UnexpectedEnd));
                },
            };
            let is_msb_zero = raw_code & 0x80 == 0;
            let num = (raw_code & 0x7f) as u32;
            if shift >= 32 {
                assert(leb128_scan(bytes, start, k, 5) == LebEnd::TooLong);
                return Err(WasmError::Trap(Trap::IntegerRepresentationTooLong));
            }
            proof {
                assert(raw_code & 0x7f == raw_code % 128) by (bit_vector);
                assert((raw_code & 0x80 == 0) == (raw_code < 128)) by (bit_vector);
                lemma_leb128_payload_bound(bytes, start, k);
                lemma_leb_step_u32(buf, num, shift);
                lemma_leb128_payload_step(bytes, start, k);
                lemma_leb128_payload_bound(bytes, start, k + 1);
                if k + 1 < 5 {
                    lemma_pow2_strictly_increases(7 * (k + 1), 32);
                    lemma_small_mod(leb128_payload(bytes, start, k + 1), pow2(32));
                }
            }
            let ghost old_buf = buf;
            buf = buf | (num << shift);
            shift = shift + 7;
            proof {
                assert(buf as nat == leb128_payload(bytes, start, k + 1) % pow2(32));
                k = k + 1;
            }
            if is_msb_zero {
                assert(leb128_scan(bytes, start, (k - 1) as nat, 5) == LebEnd::Done(k));
                break;
            }
            assert(leb128_scan(bytes, start, (k - 1) as nat, 5) == leb128_scan(bytes, start, k, 5));
        }
        Ok((buf, shift))
    }

    fn decode_leb128_u64_internal(&mut self) -> (r: WasmResult<(u64, u32)>)
        requires
            old(self).spec_ptr() + 11 < usize::MAX,
        ensures
            final(self).spec_bytes() == old(self).spec_bytes(),
            final(self).spec_ptr() == spec_leb128_unsigned(
                old(self).spec_bytes(),
                old(self).spec_ptr(),
                64,
            ).1,
            leb128_result_u64(
                r,
                spec_leb128_unsigned(old(self).spec_bytes(), old(self).spec_ptr(), 64).0,
            ),
    {
        let ghost bytes = self.spec_bytes();
        let ghost start = self.spec_ptr();
        let mut buf: u64 = 0;
        let mut shift: u32 = 0;
        let ghost mut k: nat = 0;
        proof {
            lemma2_to64();
        }
        loop
            invariant_except_break
                leb128_scan(bytes, start, 0, 10) == leb128_scan(bytes, start, k, 10),
                k < 10 ==> buf as nat == leb128_payload(bytes, start, k),
            invariant
                self.spec_bytes() == bytes,
                bytes == old(self).spec_bytes(),
                start == old(self).spec_ptr(),
                start + 11 < usize::MAX,
                k <= 10,
                shift == 7 * k,
                self.spec_ptr() == start + k,
                spec_leb128_unsigned(bytes, start, 64).1 == match leb128_scan(bytes, start, 0, 10) {
                    LebEnd::Done(n) => start + n,
                    LebEnd::OutOfBytes(n) => start + n,
                    LebEnd::TooLong => start + 11,
                },
            ensures
                leb128_scan(bytes, start, 0, 10) == LebEnd::Done(k),
                buf as nat == leb128_payload(bytes, start, k) % pow2(64),
            decreases 10 - k,
        {
            let raw_code = match self.next() {
                Some(b) => b,
                None => {
                    assert(leb128_scan(bytes, start, k, 10) == LebEnd::OutOfBytes(k + 1));
                    return Err(WasmError::Trap(Trap::UnexpectedEnd));
                },
            };
            let is_msb_zero = raw_code & 0x80 == 0;
            let num = (raw_code & 0x7f) as u64;
            if shift >= 64 {
                assert(leb128_scan(bytes, start, k, 10) == LebEnd::TooLong);
                return Err(WasmError::Trap(Trap::IntegerRepresentationTooLong));
            }
            proof {
                assert(raw_code & 0x7f == raw_code % 128) by (bit_vector);
                assert((raw_code & 0x80 == 0) == (raw_code < 128)) by (bit_vector);
                lemma_leb128_payload_bound(bytes, start, k);
                lemma_leb_step_u64(buf, num, shift as u64);
                lemma_leb128_payload_step(bytes, start, k);
                lemma_leb128_payload_bound(bytes, start, k + 1);
                if k + 1 < 10 {
                    lemma_pow2_strictly_increases(7 * (k + 1), 64);
                    lemma_small_mod(leb128_payload(bytes, start, k + 1), pow2(64));
                }
            }
            let ghost old_buf = buf;
            buf = buf | (num << (shift as u64));
            shift = shift + 7;
            proof {
                assert(buf as nat == leb128_payload(bytes, start, k + 1) % pow2(64));
                k = k + 1;
            }
            if is_msb_zero {
                assert(leb128_scan(bytes, start, (k - 1) as nat, 10) == LebEnd::Done(k));
                break;
            }
            assert(leb128_scan(bytes, start, (k - 1) as nat, 10) == leb128_scan(bytes, start, k, 10));
        }
        Ok((buf, shift))
    }
}


/// Decoding of unsigned LEB128 integers of 32 bits.
pub trait U32Decodable: Leb128Decodable {
    fn decode_leb128_u32(&mut self) -> (r: WasmResult<u32>)
        requires
            old(self).spec_ptr() + 6 < usize::MAX,
        ensures
            final(self).spec_bytes() == old(self).spec_bytes(),
            final(self).spec_ptr() == spec_leb128_unsigned(
                old(self).spec_bytes(),
                old(self).spec_ptr(),
                32,
            ).1,
            match spec_leb128_unsigned(old(self).spec_bytes(), old(self).spec_ptr(), 32).0 {
                Ok((v, _)) => r == Ok::<u32, WasmError>(v as u32),
                Err(e) => r == Err::<u32, WasmError>(WasmError::Trap(e)),
            },
    {
        match self.decode_leb128_u32_internal() {
            Ok((buf, _)) => Ok(buf),
            Err(e) => Err(e),
        }
    }
}

/// The outcome of a signed LEB128 decoding as the library returns it.
pub open spec fn leb128_result_i32(r: WasmResult<i32>, sr: Result<int, Trap>) -> bool {
    match sr {
        Ok(v) => r == Ok::<i32, WasmError>(v as i32),
        Err(e) => r == Err::<i32, WasmError>(WasmError::Trap(e)),
    }
}

/// The outcome of a signed LEB128 decoding of 64 bits as the library returns it.
pub open spec fn leb128_result_i64(r: WasmResult<i64>, sr: Result<int, Trap>) -> bool {
    match sr {
        Ok(v) => r == Ok::<i64, WasmError>(v as i64),
        Err(e) => r == Err::<i64, WasmError>(WasmError::Trap(e)),
    }
}

/// Reading a 32-bit word as two's complement.
pub proof fn lemma_u32_as_i32(buf: u32)
    ensures
        (buf as i32) as int == sign_extend(buf as nat, 32),
{
    lemma2_to64();
    assert((buf as i32) as int == if buf >= 0x8000_0000 {
        buf as int - 0x1_0000_0000
    } else {
        buf as int
    }) by (bit_vector);
}

/// Reading a 64-bit word as two's complement.
pub proof fn lemma_u64_as_i64(buf: u64)
    ensures
        (buf as i64) as int == sign_extend(buf as nat, 64),
{
    lemma2_to64();
    lemma2_to64_rest();
    assert((buf as i64) as int == if buf >= 0x8000_0000_0000_0000 {
        buf as int - 0x1_0000_0000_0000_0000
    } else {
        buf as int
    }) by (bit_vector);
}

/// Filling the bits above the `s` low ones of a 32-bit word with its bit `s - 1`.
pub proof fn lemma_sign_fill_u32(buf: u32, s: u32)
    requires
        0 < s < 32,
        buf < pow2(s as nat),
    ensures
        (buf & (1u32 << ((s - 1) as u32)) != 0) == (buf as nat >= pow2((s - 1) as nat)),
        buf as nat >= pow2((s - 1) as nat) ==> ((buf | (!0u32 << s)) as i32) as int == sign_extend(
            buf as nat,
            s as nat,
        ),
        (buf as nat) < pow2((s - 1) as nat) ==> (buf as i32) as int == sign_extend(buf as nat, s as nat),
{
    lemma_u32_pow2_no_overflow(s as nat);
    lemma_u32_pow2_no_overflow((s - 1) as nat);
    lemma_u32_shl_is_mul(1, s);
    lemma_u32_shl_is_mul(1, (s - 1) as u32);
    lemma_pow2_adds((s - 1) as nat, 1);
    lemma2_to64();
    let half = 1u32 << ((s - 1) as u32);
    let full = 1u32 << s;
    assert(full == half * 2);
    assert((buf & half != 0) == (buf >= half)) by (bit_vector)
        requires
            0 < s < 32,
            half == 1u32 << ((s - 1) as u32),
            buf < (1u32 << s),
    ;
    assert(buf >= half ==> ((buf | (!0u32 << s)) as i32) as int == buf as int - full as int)
        by (bit_vector)
        requires
            0 < s < 32,
            half == 1u32 << ((s - 1) as u32),
            full == 1u32 << s,
            buf < full,
    ;
    assert(buf < half ==> (buf as i32) as int == buf as int) by (bit_vector)
        requires
            0 < s < 32,
            half == 1u32 << ((s - 1) as u32),
    ;
}
/// Filling the bits above the `s` low ones of a 64-bit word with its bit `s - 1`.
pub proof fn lemma_sign_fill_u64(buf: u64, s: u64)
    requires
        0 < s < 64,
        buf < pow2(s as nat),
    ensures
        (buf & (1u64 << ((s - 1) as u64)) != 0) == (buf as nat >= pow2((s - 1) as nat)),
        buf as nat >= pow2((s - 1) as nat) ==> ((buf | (!0u64 << s)) as i64) as int == sign_extend(
            buf as nat,
            s as nat,
        ),
        (buf as nat) < pow2((s - 1) as nat) ==> (buf as i64) as int == sign_extend(buf as nat, s as nat),
{
    lemma_u64_pow2_no_overflow(s as nat);
    lemma_u64_pow2_no_overflow((s - 1) as nat);
    lemma_u64_shl_is_mul(1, s);
    lemma_u64_shl_is_mul(1, (s - 1) as u64);
    lemma_pow2_adds((s - 1) as nat, 1);
    lemma2_to64();
    let half = 1u64 << ((s - 1) as u64);
    let full = 1u64 << s;
    assert(full == half * 2);
    assert((buf & half != 0) == (buf >= half)) by (bit_vector)
        requires
            0 < s < 64,
            half == 1u64 << ((s - 1) as u64),
            buf < (1u64 << s),
    ;
    assert(buf >= half ==> ((buf | (!0u64 << s)) as i64) as int == buf as int - full as int)
        by (bit_vector)
        requires
            0 < s < 64,
            half == 1u64 << ((s - 1) as u64),
            full == 1u64 << s,
            buf < full,
    ;
    assert(buf < half ==> (buf as i64) as int == buf as int) by (bit_vector)
        requires
            0 < s < 64,
            half == 1u64 << ((s - 1) as u64),
    ;
}

/// A LEB128 group that ends in time ends within `max` bytes.
pub proof fn lemma_leb128_scan_done_bound(bytes: Seq<u8>, ptr: nat, k: nat, max: nat)
    requires
        k <= max,
    ensures
        leb128_scan(bytes, ptr, k, max) matches LebEnd::Done(n) ==> k < n <= max && ptr + n
            <= bytes.len(),
        leb128_scan(bytes, ptr, k, max) matches LebEnd::OutOfBytes(n) ==> k < n <= max + 1,
    decreases max - k,
{
    if ptr + k < bytes.len() && k < max && bytes[(ptr + k) as int] >= 128 {
        lemma_leb128_scan_done_bound(bytes, ptr, k + 1, max);
    }
}

/// What a successful unsigned LEB128 decoding tells about the bytes.
pub proof fn lemma_leb128_unsigned_ok(bytes: Seq<u8>, ptr: nat, width: nat)
    requires
        width == 32 || width == 64,
    ensures
        spec_leb128_unsigned(bytes, ptr, width).0 matches Ok((v, s)) ==> {
            &&& leb128_scan(bytes, ptr, 0, leb128_max_len(width)) == LebEnd::Done(s / 7)
            &&& s % 7 == 0
            &&& 1 <= s / 7 <= leb128_max_len(width)
            &&& v == leb128_payload(bytes, ptr, s / 7) % pow2(width)
            &&& v < pow2(width)
        },
{
    lemma_leb128_scan_done_bound(bytes, ptr, 0, leb128_max_len(width));
    lemma_pow2_pos(width);
    if let LebEnd::Done(n) = leb128_scan(bytes, ptr, 0, leb128_max_len(width)) {
        assert((7 * n) / 7 == n);
        assert((7 * n) % 7 == 0);
    }
}

/// Decoding of signed LEB128 integers.
pub trait SignedIntegerDecodable: Leb128Decodable {
    fn decode_leb128_i32(&mut self) -> (r: WasmResult<i32>)
        requires
            old(self).spec_ptr() + 6 < usize::MAX,
        ensures
            final(self).spec_bytes() == old(self).spec_bytes(),
            final(self).spec_ptr() == spec_leb128_signed(
                old(self).spec_bytes(),
                old(self).spec_ptr(),
                32,
            ).1,
            leb128_result_i32(
                r,
                spec_leb128_signed(old(self).spec_bytes(), old(self).spec_ptr(), 32).0,
            ),
    {
        let (mut buf, shift) = match self.decode_leb128_u32_internal() {
            Ok(x) => x,
            Err(e) => {
                return Err(e);
            },
        };
        let ghost bytes = old(self).spec_bytes();
        let ghost start = old(self).spec_ptr();
        proof {
            lemma2_to64();
            let n = (shift / 7) as nat;
            lemma_leb128_unsigned_ok(bytes, start, 32);
            lemma_leb128_payload_bound(bytes, start, n);
        }
        if shift - 1 >= 32 {
            proof {
                lemma_u32_as_i32(buf);
            }
            return Ok(buf as i32);
        }
        proof {
            let n = (shift / 7) as nat;
            lemma_small_mod(leb128_payload(bytes, start, n), pow2(32));
            lemma_sign_fill_u32(buf, shift);
        }
        let signed_bits = 1u32 << (shift - 1);
        let is_buf_signed = buf & signed_bits != 0;
        if is_buf_signed {
            buf = buf | (!0u32 << shift);
        }
        Ok(buf as i32)
    }

    fn decode_leb128_i64(&mut self) -> (r: WasmResult<i64>)
        requires
            old(self).spec_ptr() + 11 < usize::MAX,
        ensures
            final(self).spec_bytes() == old(self).spec_bytes(),
            final(self).spec_ptr() == spec_leb128_signed(
                old(self).spec_bytes(),
                old(self).spec_ptr(),
                64,
            ).1,
            leb128_result_i64(
                r,
                spec_leb128_signed(old(self).spec_bytes(), old(self).spec_ptr(), 64).0,
            ),
    {
        let (mut buf, shift) = match self.decode_leb128_u64_internal() {
            Ok(x) => x,
            Err(e) => {
                return Err(e);
            },
        };
        let ghost bytes = old(self).spec_bytes();
        let ghost start = old(self).spec_ptr();
        proof {
            lemma2_to64();
            lemma2_to64_rest();
            let n = (shift / 7) as nat;
            lemma_leb128_unsigned_ok(bytes, start, 64);
            lemma_leb128_payload_bound(bytes, start, n);
        }
        if shift - 1 >= 64 {
            proof {
                lemma_u64_as_i64(buf);
            }
            return Ok(buf as i64);
        }
        proof {
            let n = (shift / 7) as nat;
            lemma_small_mod(leb128_payload(bytes, start, n), pow2(64));
            lemma_sign_fill_u64(buf, shift as u64);
        }
        let signed_bits = 1u64 << ((shift - 1) as u64);
        let is_buf_signed = buf & signed_bits != 0;
        if is_buf_signed {
            buf = buf | (!0u64 << (shift as u64));
        }
        Ok(buf as i64)
    }
}

/// A cursor position from which every reader may run: it lies within the bytes,
/// and the byte count leaves room for the position to move past the end.
pub open spec fn cursor_ok(bytes: Seq<u8>, ptr: nat) -> bool {
    ptr <= bytes.len() && bytes.len() + 16 < usize::MAX
}

/// An unsigned LEB128 integer of 32 bits at `ptr`, and the position after it.
pub open spec fn spec_u32(bytes: Seq<u8>, ptr: nat) -> (Result<u32, Trap>, nat) {
    let (r, p) = spec_leb128_unsigned(bytes, ptr, 32);
    match r {
        Ok((v, _)) => (Ok(v as u32), p),
        Err(e) => (Err(e), p),
    }
}

/// The next byte, failing with `UnexpectedEnd` past the end.
pub open spec fn spec_byte(bytes: Seq<u8>, ptr: nat) -> (Result<u8, Trap>, nat) {
    match byte_at(bytes, ptr) {
        Some(b) => (Ok(b), ptr + 1),
        None => (Err(Trap::UnexpectedEnd), ptr + 1),
    }
}

/// A successful read of an unsigned LEB128 integer ends within the bytes.
pub proof fn lemma_spec_u32_ok(bytes: Seq<u8>, ptr: nat)
    ensures
        spec_u32(bytes, ptr).0 is Ok ==> ptr < spec_u32(bytes, ptr).1 <= bytes.len(),
        spec_u32(bytes, ptr).1 <= ptr + 6,
{
    lemma_leb128_unsigned_ok(bytes, ptr, 32);
    lemma_leb128_scan_done_bound(bytes, ptr, 0, 5);
}

/// Limits: a flag byte, 0 for a minimum alone and 1 for a minimum and a maximum,
/// then the bounds as unsigned LEB128 integers. Another flag is `Unknown`.
pub open spec fn spec_decode_limit(bytes: Seq<u8>, ptr: nat) -> (Result<Limit, Trap>, nat) {
    match byte_at(bytes, ptr) {
        None => (Err(Trap::UnexpectedEnd), ptr + 1),
        Some(flag) => if flag == 0 {
            let (min, p) = spec_u32(bytes, ptr + 1);
            match min {
                Ok(min) => (Ok(Limit::NoUpperLimit(min)), p),
                Err(e) => (Err(e), p),
            }
        } else if flag == 1 {
            let (min, p) = spec_u32(bytes, ptr + 1);
            match min {
                Ok(min) => {
                    let (max, p2) = spec_u32(bytes, p);
                    match max {
                        Ok(max) => (Ok(Limit::HasUpperLimit(min, max)), p2),
                        Err(e) => (Err(e), p2),
                    }
                },
                Err(e) => (Err(e), p),
            }
        } else {
            (Err(Trap::Unknown), ptr + 1)
        },
    }
}

/// Decoding of limits.
pub trait LimitDecodable: U32Decodable {
    fn decode_limit(&mut self) -> (r: WasmResult<Limit>)
        requires
            cursor_ok(old(self).spec_bytes(), old(self).spec_ptr()),
        ensures
            final(self).spec_bytes() == old(self).spec_bytes(),
            final(self).spec_ptr() == spec_decode_limit(old(self).spec_bytes(), old(self).spec_ptr()).1,
            r == trap_result(spec_decode_limit(old(self).spec_bytes(), old(self).spec_ptr()).0),
    {
        let ghost bytes = self.spec_bytes();
        match self.next() {
            Some(0x0) => {
                let min = match self.decode_leb128_u32() {
                    Ok(v) => v,
                    Err(e) => return Err(e),
                };
                Ok(Limit::NoUpperLimit(min))
            },
            Some(0x1) => {
                let min = match self.decode_leb128_u32() {
                    Ok(v) => v,
                    Err(e) => return Err(e),
                };
                proof {
                    lemma_spec_u32_ok(bytes, (old(self).spec_ptr() + 1) as nat);
                }
                let max = match self.decode_leb128_u32() {
                    Ok(v) => v,
                    Err(e) => return Err(e),
                };
                Ok(Limit::HasUpperLimit(min, max))
            },
            None => Err(WasmError::Trap(Trap::UnexpectedEnd)),
            Some(_) => Err(WasmError::Trap(Trap::Unknown)),
        }
    }
}

/// Builds a string from bytes with `String::from_utf8` of std, which accepts
/// exactly the well-formed UTF-8 byte sequences. The contract states that,
/// with UTF-8 as `vstd::utf8` models it.
#[verifier::external_body]
fn string_from_utf8(bytes: Vec<u8>) -> (r: Option<String>)
    ensures
        r is Some <==> valid_utf8(bytes@),
        r matches Some(s) ==> s@ == decode_utf8(bytes@),
{
    String::from_utf8(bytes).ok()
}

/// A name: its length in bytes as an unsigned LEB128 integer, then the bytes,
/// which must be well-formed UTF-8.
pub open spec fn spec_decode_name(bytes: Seq<u8>, ptr: nat) -> (Result<Seq<char>, Trap>, nat) {
    let (size, p) = spec_u32(bytes, ptr);
    match size {
        Err(e) => (Err(e), p),
        Ok(size) => if p + size <= bytes.len() {
            let raw = bytes.subrange(p as int, p + size);
            if valid_utf8(raw) {
                (Ok(decode_utf8(raw)), (p + size) as nat)
            } else {
                (Err(Trap::InvalidUTF8Encoding), (p + size) as nat)
            }
        } else {
            (Err(Trap::UnexpectedEnd), bytes.len() + 1)
        },
    }
}

/// Decoding of names.
pub trait NameDecodable: U32Decodable {
    fn decode_name(&mut self) -> (r: WasmResult<String>)
        requires
            cursor_ok(old(self).spec_bytes(), old(self).spec_ptr()),
        ensures
            final(self).spec_bytes() == old(self).spec_bytes(),
            final(self).spec_ptr() == spec_decode_name(old(self).spec_bytes(), old(self).spec_ptr()).1,
            match spec_decode_name(old(self).spec_bytes(), old(self).spec_ptr()).0 {
                Ok(s) => r matches Ok(name) && name@ == s,
                Err(e) => r == Err::<String, WasmError>(WasmError::Trap(e)),
            },
    {
        let ghost bytes = self.spec_bytes();
        let size_of_name = match self.decode_leb128_u32() {
            Ok(v) => v,
            Err(e) => return Err(e),
        };
        proof {
            lemma_spec_u32_ok(bytes, old(self).spec_ptr());
        }
        let ghost p = self.spec_ptr();
        let mut buf: Vec<u8> = Vec::new();
        let mut i: u32 = 0;
        while i < size_of_name
            invariant
                self.spec_bytes() == bytes,
                bytes == old(self).spec_bytes(),
                p == spec_u32(bytes, old(self).spec_ptr()).1,
                spec_u32(bytes, old(self).spec_ptr()).0 == Ok::<u32, Trap>(size_of_name),
                p <= bytes.len(),
                bytes.len() + 16 < usize::MAX,
                i <= size_of_name,
                self.spec_ptr() == p + i,
                p + i <= bytes.len(),
                buf@ == bytes.subrange(p as int, p + i),
            decreases size_of_name - i,
        {
            let b = match self.next() {
                Some(b) => b,
                None => return Err(WasmError::Trap(Trap::UnexpectedEnd)),
            };
            buf.push(b);
            proof {
                assert(bytes.subrange(p as int, p + i + 1) == bytes.subrange(p as int, p + i).push(b));
            }
            i = i + 1;
        }
        match string_from_utf8(buf) {
            Some(s) => Ok(s),
            None => Err(WasmError::Trap(Trap::InvalidUTF8Encoding)),
        }
    }
}

/// Looks at the next byte without moving.
pub trait Peekable: AbstractDecodable {
    fn peek(&self) -> (r: Option<u8>)
        ensures
            r == byte_at(self.spec_bytes(), self.spec_ptr()),
    {
        let ptr = self.byte_ptr();
        let bytes = self.bytes();
        if ptr < bytes.len() {
            Some(bytes[ptr])
        } else {
            None
        }
    }
}

/// Shifting left within 64 bits multiplies by a power of two, modulo 2^64.
pub proof fn lemma_u64_shl_mod(x: u64, s: u64)
    requires
        s < 64,
    ensures
        (x << s) as nat == (x as nat * pow2(s as nat)) % pow2(64),
    decreases s,
{
    lemma2_to64();
    lemma2_to64_rest();
    if s == 0 {
        assert(x << 0 == x) by (bit_vector);
        assert(x as nat * pow2(0) == x as nat);
        lemma_small_mod(x as nat, pow2(64));
    } else {
        let prev = x << ((s - 1) as u64);
        assert(x << s == (prev as u128 * 2) as u64) by (bit_vector)
            requires
                0 < s < 64,
                prev == x << ((s - 1) as u64),
        ;
        assert((prev as u128 * 2) as u64 as nat == (prev as nat * 2) % 0x1_0000_0000_0000_0000)
            by (bit_vector);
        lemma_u64_shl_mod(x, (s - 1) as u64);
        lemma_mul_mod_noop_left((x as nat * pow2((s - 1) as nat)) as int, 2, pow2(64) as int);
        lemma_pow2_adds((s - 1) as nat, 1);
        lemma_mul_is_associative(x as int, pow2((s - 1) as nat) as int, 2);
    }
}

/// Shifting left within 32 bits multiplies by a power of two, modulo 2^32.
pub proof fn lemma_u32_shl_mod(x: u32, s: u32)
    requires
        s < 32,
    ensures
        (x << s) as nat == (x as nat * pow2(s as nat)) % pow2(32),
    decreases s,
{
    lemma2_to64();
    if s == 0 {
        assert(x << 0 == x) by (bit_vector);
        assert(x as nat * pow2(0) == x as nat);
        lemma_small_mod(x as nat, pow2(32));
    } else {
        let prev = x << ((s - 1) as u32);
        assert(x << s == (prev as u64 * 2) as u32) by (bit_vector)
            requires
                0 < s < 32,
                prev == x << ((s - 1) as u32),
        ;
        assert((prev as u64 * 2) as u32 as nat == (prev as nat * 2) % 0x1_0000_0000) by (bit_vector);
        lemma_u32_shl_mod(x, (s - 1) as u32);
        lemma_mul_mod_noop_left((x as nat * pow2((s - 1) as nat)) as int, 2, pow2(32) as int);
        lemma_pow2_adds((s - 1) as nat, 1);
        lemma_mul_is_associative(x as int, pow2((s - 1) as nat) as int, 2);
    }
}

/// One LEB128 step on 64 bits: or-ing a shifted payload above the bits already
/// filled adds it, modulo 2^64.
pub proof fn lemma_leb_step_u64(buf: u64, num: u64, s: u64)
    requires
        s < 64,
        buf < pow2(s as nat),
    ensures
        (buf | (num << s)) as nat == (buf as nat + num as nat * pow2(s as nat)) % pow2(64),
{
    lemma_u64_pow2_no_overflow(s as nat);
    lemma_u64_shl_is_mul(1, s);
    assert(buf < (1u64 << s));
    let sh = num << s;
    assert((buf | sh) as int == buf as int + sh as int) by (bit_vector)
        requires
            s < 64,
            buf < (1u64 << s),
            sh == num << s,
    ;
    lemma_u64_shl_mod(num, s);
    lemma2_to64_rest();
    lemma_add_mod_noop_right(buf as int, (num as nat * pow2(s as nat)) as int, pow2(64) as int);
    lemma_small_mod((buf | sh) as nat, pow2(64));
}

/// One LEB128 step on 32 bits.
pub proof fn lemma_leb_step_u32(buf: u32, num: u32, s: u32)
    requires
        s < 32,
        buf < pow2(s as nat),
    ensures
        (buf | (num << s)) as nat == (buf as nat + num as nat * pow2(s as nat)) % pow2(32),
{
    lemma_u32_pow2_no_overflow(s as nat);
    lemma_u32_shl_is_mul(1, s);
    assert(buf < (1u32 << s));
    let sh = num << s;
    assert((buf | sh) as int == buf as int + sh as int) by (bit_vector)
        requires
            s < 32,
            buf < (1u32 << s),
            sh == num << s,
    ;
    lemma_u32_shl_mod(num, s);
    lemma2_to64();
    lemma_add_mod_noop_right(buf as int, (num as nat * pow2(s as nat)) as int, pow2(32) as int);
    lemma_small_mod((buf | sh) as nat, pow2(32));
}

/// The payload of `n` bytes fits in `7 * n` bits.
pub proof fn lemma_leb128_payload_bound(bytes: Seq<u8>, ptr: nat, n: nat)
    ensures
        leb128_payload(bytes, ptr, n) < pow2(7 * n),
    decreases n,
{
    if n == 0 {
        lemma2_to64();
    } else {
        let m = (n - 1) as nat;
        lemma_leb128_payload_bound(bytes, ptr, m);
        let b = (bytes[(ptr + m) as int] % 128) as nat;
        lemma_pow2_adds(7 * m, 7);
        lemma2_to64();
        assert(b * pow2(7 * m) <= 127 * pow2(7 * m)) by {
            lemma_mul_inequality(b as int, 127, pow2(7 * m) as int);
        }
        assert(pow2(7 * m) * pow2(7) == pow2(7 * m) * 128);
        assert(7 * m + 7 == 7 * n);
    }
}

/// Decoding more bytes of LEB128 keeps the payload bytes read so far.
pub proof fn lemma_leb128_payload_step(bytes: Seq<u8>, ptr: nat, k: nat)
    ensures
        leb128_payload(bytes, ptr, k + 1) == leb128_payload(bytes, ptr, k) + (bytes[(ptr
            + k) as int] % 128) as nat * pow2(7 * k),
{
}

/// Reads `n` items one after another with `item`, from `ptr` on: the items and
/// the position after them, or the first failure and the position where it left off.
pub open spec fn spec_repeat<T>(
    bytes: Seq<u8>,
    ptr: nat,
    n: nat,
    item: spec_fn(Seq<u8>, nat) -> (Result<T, Trap>, nat),
) -> (Result<Seq<T>, Trap>, nat)
    decreases n,
{
    if n == 0 {
        (Ok(seq![]), ptr)
    } else {
        let (r, p) = spec_repeat(bytes, ptr, (n - 1) as nat, item);
        match r {
            Err(e) => (Err(e), p),
            Ok(out) => {
                let (x, p2) = item(bytes, p);
                match x {
                    Ok(x) => (Ok(out.push(x)), p2),
                    Err(e) => (Err(e), p2),
                }
            },
        }
    }
}

/// When the item after the first `i` fails, reading `i + k` items fails the same way.
pub proof fn lemma_repeat_error<T>(
    bytes: Seq<u8>,
    ptr: nat,
    i: nat,
    k: nat,
    item: spec_fn(Seq<u8>, nat) -> (Result<T, Trap>, nat),
)
    requires
        k > 0,
        spec_repeat(bytes, ptr, i, item).0 is Ok,
        item(bytes, spec_repeat(bytes, ptr, i, item).1).0 is Err,
    ensures
        spec_repeat(bytes, ptr, i + k, item) == (
            Err::<Seq<T>, Trap>(item(bytes, spec_repeat(bytes, ptr, i, item).1).0->Err_0),
            item(bytes, spec_repeat(bytes, ptr, i, item).1).1,
        ),
    decreases k,
{
    if k > 1 {
        lemma_repeat_error(bytes, ptr, i, (k - 1) as nat, item);
        assert(spec_repeat(bytes, ptr, i + k, item) == spec_repeat(bytes, ptr, (i + k - 1) as nat, item));
    }
}

/// The byte at `ptr` as a value type; a missing byte is an unexpected end and
/// a byte of no value type is `Unknown`.
pub open spec fn spec_value_type_at(bytes: Seq<u8>, ptr: nat) -> (Result<ValueTypes, Trap>, nat) {
    match byte_at(bytes, ptr) {
        None => (Err(Trap::UnexpectedEnd), ptr + 1),
        Some(c) => match spec_value_type(c) {
            Some(t) => (Ok(t), ptr + 1),
            None => (Err(Trap::Unknown), ptr + 1),
        },
    }
}

/// Reading value types one byte each.
pub open spec fn value_type_item() -> spec_fn(Seq<u8>, nat) -> (Result<ValueTypes, Trap>, nat) {
    |b: Seq<u8>, p: nat| spec_value_type_at(b, p)
}

/// Reading unsigned LEB128 integers of 32 bits.
pub open spec fn u32_item() -> spec_fn(Seq<u8>, nat) -> (Result<u32, Trap>, nat) {
    |b: Seq<u8>, p: nat| spec_u32(b, p)
}

/// The views of the items of a sequence.
pub open spec fn views<T: View>(s: Seq<T>) -> Seq<T::V> {
    s.map_values(|x: T| x@)
}

/// Pushing an item pushes its view.
pub proof fn lemma_views_push<T: View>(s: Seq<T>, x: T)
    ensures
        views(s.push(x)) == views(s).push(x@),
{
    assert(views(s.push(x)) =~= views(s).push(x@));
}

/// A result of the library that matches a decoding outcome of a plain value.
pub open spec fn decoded<T>(r: WasmResult<T>, s: Result<T, Trap>) -> bool {
    r == trap_result(s)
}

/// A result of the library whose value has the view that a decoding outcome gives.
pub open spec fn decoded_as<T: View>(r: WasmResult<T>, s: Result<T::V, Trap>) -> bool {
    match s {
        Ok(v) => r matches Ok(x) && x@ == v,
        Err(e) => r == Err::<T, WasmError>(WasmError::Trap(e)),
    }
}

/// Limits that are read ends within the bytes.
pub proof fn lemma_limit_ok(bytes: Seq<u8>, ptr: nat)
    ensures
        spec_decode_limit(bytes, ptr).0 is Ok ==> ptr < spec_decode_limit(bytes, ptr).1 <= bytes.len(),
{
    lemma_spec_u32_ok(bytes, ptr + 1);
    lemma_spec_u32_ok(bytes, spec_u32(bytes, ptr + 1).1);
}

/// A name that is read ends within the bytes.
pub proof fn lemma_name_ok(bytes: Seq<u8>, ptr: nat)
    ensures
        spec_decode_name(bytes, ptr).0 is Ok ==> ptr < spec_decode_name(bytes, ptr).1 <= bytes.len(),
{
    lemma_spec_u32_ok(bytes, ptr);
}

/// Decoding a whole value, such as a module, from a cursor.
pub trait Decodable {
    type Item;

    /// Whether decoding may start from this state.
    spec fn decode_ready(&self) -> bool;

    /// Whether `r` is what decoding from this state gives.
    spec fn decodes_to(&self, r: WasmResult<Self::Item>) -> bool;

    fn decode(&mut self) -> (r: WasmResult<Self::Item>)
        requires
            old(self).decode_ready(),
        ensures
            old(self).decodes_to(r),
    ;
}

/// The shortest unsigned LEB128 encoding of `v`: seven bits a byte, least
/// significant first, with the high bit set on every byte but the last.
pub open spec fn leb128_encode(v: nat) -> Seq<u8>
    decreases v,
{
    if v < 128 {
        seq![v as u8]
    } else {
        seq![(v % 128 + 128) as u8] + leb128_encode(v / 128)
    }
}

/// A value below `2^(7k)` takes at most `k` bytes.
proof fn lemma_encode_len(v: nat, k: nat)
    requires
        k >= 1,
        v < pow2(7 * k),
    ensures
        1 <= leb128_encode(v).len() <= k,
    decreases v,
{
    if v >= 128 {
        lemma2_to64();
        if k == 1 {
            assert(pow2(7) == 128);
        }
        assert(k >= 2);
        let m = (k - 1) as nat;
        lemma_pow2_adds(7 * m, 7);
        assert(7 * m + 7 == 7 * k);
        let big = pow2(7 * m);
        assert(v / 128 < big) by (nonlinear_arith)
            requires
                v < big * 128,
        ;
        lemma_encode_len(v / 128, m);
    }
}

/// Scanning an encoding that starts `k` bytes in ends after its last byte.
proof fn lemma_scan_encoded(bytes: Seq<u8>, ptr: nat, k: nat, max: nat, v: nat)
    requires
        ptr + k + leb128_encode(v).len() <= bytes.len(),
        k + leb128_encode(v).len() <= max,
        forall|j: int| 0 <= j < leb128_encode(v).len() ==> bytes[ptr + k + j] == #[trigger] leb128_encode(v)[j],
    ensures
        leb128_scan(bytes, ptr, k, max) == LebEnd::Done(k + leb128_encode(v).len()),
    decreases v,
{
    let e = leb128_encode(v);
    assert(bytes[(ptr + k) as int] == e[0]);
    if v >= 128 {
        let r = leb128_encode(v / 128);
        assert(e == seq![(v % 128 + 128) as u8] + r);
        assert forall|j: int| 0 <= j < r.len() implies bytes[ptr + (k + 1) + j] == #[trigger] r[j] by {
            assert(e[1 + j] == r[j]);
        }
        lemma_scan_encoded(bytes, ptr, k + 1, max, v / 128);
    }
}

/// The payload read from the front: the first byte's seven bits, then the rest
/// shifted up by seven.
proof fn lemma_payload_front(bytes: Seq<u8>, p: nat, n: nat)
    requires
        n >= 1,
    ensures
        leb128_payload(bytes, p, n) == (bytes[p as int] % 128) as nat + 128 * leb128_payload(bytes, p + 1, (n - 1) as nat),
    decreases n,
{
    lemma2_to64();
    if n == 1 {
        assert(leb128_payload(bytes, p, 0) == 0);
        assert(leb128_payload(bytes, p, 1) == (bytes[p as int] % 128) as nat * pow2(0));
        assert(leb128_payload(bytes, p + 1, 0) == 0);
    } else {
        let m = (n - 2) as nat;
        lemma_payload_front(bytes, p, (n - 1) as nat);
        lemma_pow2_adds(7, 7 * m);
        let a = leb128_payload(bytes, p + 1, m);
        let c = (bytes[(p + 1 + m) as int] % 128) as nat;
        let big = pow2(7 * m);
        let b0 = (bytes[p as int] % 128) as nat;
        assert(leb128_payload(bytes, p + 1, (n - 1) as nat) == a + c * big);
        assert(leb128_payload(bytes, p, (n - 1) as nat) == b0 + 128 * a);
        assert(pow2((7 * (n - 1)) as nat) == 128 * big) by {
            assert((7 * (n - 1)) as nat == 7 + 7 * m);
        }
        assert(leb128_payload(bytes, p, n) == leb128_payload(bytes, p, (n - 1) as nat) + c * pow2((7 * (n - 1)) as nat)) by {
            assert(bytes[(p + n - 1) as int] == bytes[(p + 1 + m) as int]);
        }
        assert(128 * (a + c * big) == 128 * a + c * (128 * big)) by (nonlinear_arith);
    }
}

/// The payload of an encoding is the value encoded.
proof fn lemma_payload_encoded(bytes: Seq<u8>, p: nat, v: nat)
    requires
        p + leb128_encode(v).len() <= bytes.len(),
        forall|j: int| 0 <= j < leb128_encode(v).len() ==> bytes[p + j] == #[trigger] leb128_encode(v)[j],
    ensures
        leb128_payload(bytes, p, leb128_encode(v).len()) == v,
    decreases v,
{
    let e = leb128_encode(v);
    assert(bytes[p as int] == e[0]);
    lemma_payload_front(bytes, p, e.len());
    if v < 128 {
        assert(e.len() == 1);
    } else {
        let r = leb128_encode(v / 128);
        assert(e == seq![(v % 128 + 128) as u8] + r);
        assert forall|j: int| 0 <= j < r.len() implies bytes[(p + 1) + j] == #[trigger] r[j] by {
            assert(e[1 + j] == r[j]);
        }
        lemma_payload_encoded(bytes, p + 1, v / 128);
        assert(((v % 128 + 128) as u8) % 128 == v % 128);
        assert(v % 128 + 128 * (v / 128) == v) by (nonlinear_arith);
    }
}

/// The LEB128 round trip: the shortest encoding of a 32-bit value, wherever
/// it stands, reads back as that value, and the position moves just past it;
/// it takes at most five bytes.
pub proof fn lemma_u32_roundtrip(bytes: Seq<u8>, ptr: nat, v: u32)
    requires
        ptr + leb128_encode(v as nat).len() <= bytes.len(),
        bytes.subrange(ptr as int, (ptr + leb128_encode(v as nat).len()) as int) == leb128_encode(v as nat),
    ensures
        leb128_encode(v as nat).len() <= 5,
        spec_u32(bytes, ptr) == (Ok::<u32, Trap>(v), ptr + leb128_encode(v as nat).len()),
{
    let e = leb128_encode(v as nat);
    lemma2_to64();
    assert(pow2(7 * 5) == pow2(35));
    lemma_pow2_adds(32, 3);
    assert(pow2(35) == pow2(32) * 8);
    lemma_encode_len(v as nat, 5);
    assert forall|j: int| 0 <= j < e.len() implies bytes[ptr + 0 + j] == #[trigger] e[j] by {
        assert(bytes.subrange(ptr as int, (ptr + e.len()) as int)[j] == bytes[ptr + j]);
    }
    lemma_scan_encoded(bytes, ptr, 0, 5, v as nat);
    assert forall|j: int| 0 <= j < e.len() implies bytes[ptr + j] == #[trigger] e[j] by {
        assert(bytes.subrange(ptr as int, (ptr + e.len()) as int)[j] == bytes[ptr + j]);
    }
    lemma_payload_encoded(bytes, ptr, v as nat);
    assert((v as nat) % pow2(32) == v as nat) by {
        lemma_small_mod(v as nat, pow2(32));
    }
}

} // verus!
