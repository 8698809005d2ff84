//! Runtime values. A float is held as the bits of its IEEE 754 encoding.
use vstd::prelude::*;
use crate::value_type::ValueTypes;
use crate::error::Trap;

verus! {

/// A runtime value: a 32- or 64-bit integer, or the bits of a 32- or 64-bit float.
#[derive(Debug, Clone, Copy, PartialEq, Eq, Structural)]
pub enum Values {
    I32(i32),
    I64(i64),
    F32(u32),
    F64(u64),
}

impl Values {
    /// The type of the value.
    pub open spec fn value_type_spec(self) -> ValueTypes {
        match self {
            Values::I32(_) => ValueTypes::I32,
            Values::I64(_) => ValueTypes::I64,
            Values::F32(_) => ValueTypes::F32,
            Values::F64(_) => ValueTypes::F64,
        }
    }

    /// The type of the value.
    pub fn value_type(&self) -> (r: ValueTypes)
        ensures
            r == match *self {
                Values::I32(_) => ValueTypes::I32,
                Values::I64(_) => ValueTypes::I64,
                Values::F32(_) => ValueTypes::F32,
                Values::F64(_) => ValueTypes::F64,
            },
    {
        match self {
            Values::I32(_) => ValueTypes::I32,
            Values::I64(_) => ValueTypes::I64,
            Values::F32(_) => ValueTypes::F32,
            Values::F64(_) => ValueTypes::F64,
        }
    }
}

/// Whether two values are integers of the same width.
pub open spec fn int_pair(a: Values, b: Values) -> bool {
    (a is I32 && b is I32) || (a is I64 && b is I64)
}

/// Division that rounds toward zero, as the machine divides.
pub open spec fn trunc_div(a: int, b: int) -> int {
    if a >= 0 && b > 0 {
        a / b
    } else if a < 0 && b < 0 {
        (-a) / (-b)
    } else if a < 0 {
        -((-a) / b)
    } else {
        -(a / (-b))
    }
}

/// A quotient of a non-negative number is no greater than the number.
proof fn lemma_div_bound(x: int, b: int)
    requires
        x >= 0,
        b >= 1,
    ensures
        0 <= x / b <= x,
{
    assert(0 <= x / b <= x) by (nonlinear_arith)
        requires
            x >= 0,
            b >= 1,
    ;
}

/// A truncated quotient has no greater magnitude than the dividend, and the
/// least value divided by -1 is the only quotient of fixed-width integers out of range.
proof fn lemma_trunc_div_range(a: int, b: int, min: int, max: int)
    requires
        b != 0,
        min <= a <= max,
        min <= b <= max,
        max == -min - 1,
        !(a == min && b == -1),
    ensures
        min <= trunc_div(a, b) <= max,
        trunc_div(a, b) == (if a == 0 {
            0
        } else if a > 0 && b > 0 {
            a / b
        } else if a < 0 && b < 0 {
            (a * -1) / (b * -1)
        } else if a < 0 {
            ((a * -1) / b) * -1
        } else {
            (a / (b * -1)) * -1
        }),
{
    if a >= 0 && b > 0 {
        lemma_div_bound(a, b);
    } else if a < 0 && b < 0 {
        lemma_div_bound(-a, -b);
        if b == -1 {
            assert((-a) / 1 == -a);
        } else {
            assert((-a) / (-b) <= (-a) / 2) by (nonlinear_arith)
                requires
                    -a >= 0,
                    -b >= 2,
            ;
            lemma_div_bound(-a, 2);
        }
    } else if a < 0 {
        lemma_div_bound(-a, b);
    } else {
        lemma_div_bound(a, -b);
    }
}

/// The remainder of a division that rounds toward zero: it has the sign of the dividend.
pub open spec fn trunc_rem(a: int, b: int) -> int {
    if a == 0 {
        0
    } else if a > 0 && b > 0 {
        a % b
    } else if a < 0 && b < 0 {
        -((-a) % (-b))
    } else if a < 0 {
        -((-a) % b)
    } else {
        a % (-b)
    }
}

/// Whether a value is an integer.
pub open spec fn is_int(a: Values) -> bool {
    a is I32 || a is I64
}

/// 1 for true, 0 for false.
pub open spec fn bool_i32(b: bool) -> i32 {
    if b {
        1
    } else {
        0
    }
}

/// Whether bit `i` of `x`, counted from the least significant, is set.
pub open spec fn bit_set(x: u64, i: u64) -> bool {
    (x >> i) & 1 == 1
}

/// The number of zero bits above the highest set bit, among the `width` low bits of `x`.
pub open spec fn leading_zeros(x: u64, width: u64) -> nat
    decreases width,
{
    if width == 0 {
        0
    } else if bit_set(x, (width - 1) as u64) {
        0
    } else {
        1 + leading_zeros(x, (width - 1) as u64)
    }
}

/// The number of zero bits below the lowest set bit, among bits `from` up to `width` of `x`.
pub open spec fn trailing_zeros(x: u64, from: u64, width: u64) -> nat
    decreases width - from,
{
    if from >= width {
        0
    } else if bit_set(x, from) {
        0
    } else {
        1 + trailing_zeros(x, (from + 1) as u64, width)
    }
}

/// The number of set bits among the `width` low bits of `x`.
pub open spec fn ones(x: u64, width: u64) -> nat
    decreases width,
{
    if width == 0 {
        0
    } else {
        (if bit_set(x, (width - 1) as u64) { 1nat } else { 0nat }) + ones(x, (width - 1) as u64)
    }
}

/// The bits of an integer value, zero-extended to 64, and its width.
pub open spec fn int_bits(v: Values) -> (u64, u64) {
    match v {
        Values::I32(x) => ((x as u32) as u64, 32),
        Values::I64(x) => (x as u64, 64),
        _ => (0, 0),
    }
}

/// Counts over the low `width` bits of `x`: leading zeros, trailing zeros or ones.
fn count_bits(x: u64, width: u64, which: u8) -> (r: u64)
    requires
        width <= 64,
    ensures
        which == 0 ==> r == leading_zeros(x, width),
        which == 1 ==> r == trailing_zeros(x, 0, width),
        which != 0 && which != 1 ==> r == ones(x, width),
{
    if which == 0 {
        let mut k: u64 = width;
        let mut n: u64 = 0;
        while k > 0 && (x >> (k - 1)) & 1 == 0
            invariant
                k <= width <= 64,
                n + k == width,
                leading_zeros(x, width) == n + leading_zeros(x, k),
            decreases k,
        {
            n = n + 1;
            k = k - 1;
        }
        proof {
            if k > 0 {
                let kk = (k - 1) as u64;
                assert((x >> kk) & 1 == 0 || (x >> kk) & 1 == 1) by (bit_vector);
            }
        }
        n
    } else if which == 1 {
        let mut i: u64 = 0;
        while i < width && (x >> i) & 1 == 0
            invariant
                i <= width <= 64,
                trailing_zeros(x, 0, width) == i + trailing_zeros(x, i, width),
            decreases width - i,
        {
            i = i + 1;
        }
        proof {
            assert((x >> i) & 1 == 0 || (x >> i) & 1 == 1) by (bit_vector);
        }
        i
    } else {
        let mut k: u64 = 0;
        let mut n: u64 = 0;
        proof {
            lemma_ones_split(x, 0, width);
        }
        while k < width
            invariant
                k <= width <= 64,
                n <= k,
                ones(x, width) == n + ones_between(x, k, width),
            decreases width - k,
        {
            if (x >> k) & 1 == 1 {
                n = n + 1;
            }
            proof {
                lemma_ones_between_step(x, k, width);
            }
            k = k + 1;
        }
        n
    }
}

/// The number of set bits of `x` among bits `from` up to `width`.
pub open spec fn ones_between(x: u64, from: u64, width: u64) -> nat
    decreases width - from,
{
    if from >= width {
        0
    } else {
        (if bit_set(x, from) { 1nat } else { 0nat }) + ones_between(x, (from + 1) as u64, width)
    }
}

/// Counting set bits from the top or from the bottom gives the same number.
proof fn lemma_ones_split(x: u64, from: u64, width: u64)
    requires
        from <= width,
    ensures
        ones(x, width) == ones(x, from) + ones_between(x, from, width),
    decreases width - from,
{
    if from < width {
        lemma_ones_split(x, (from + 1) as u64, width);
        assert(ones(x, (from + 1) as u64) == (if bit_set(x, from) { 1nat } else { 0nat }) + ones(x, from));
    }
}

/// One step of the count of set bits.
proof fn lemma_ones_between_step(x: u64, k: u64, width: u64)
    requires
        k < width,
    ensures
        ones_between(x, k, width) == (if bit_set(x, k) { 1nat } else { 0nat }) + ones_between(x, (k + 1) as u64, width),
{
}

impl Values {
    /// Whether an `i32` value is not zero.
    pub fn is_truthy(&self) -> (r: bool)
        requires
            *self is I32,
        ensures
            r == (self->I32_0 != 0),
    {
        match self {
            Values::I32(v) => *v != 0,
            _ => false,
        }
    }

    /// Bitwise and; on a float, of its bits.
    pub fn and(&self, other: &Values) -> (r: Values)
        requires
            self.value_type_spec() == other.value_type_spec(),
        ensures
            r == match (*self, *other) {
                (Values::I32(l), Values::I32(r)) => Values::I32(l & r),
                (Values::I64(l), Values::I64(r)) => Values::I64(l & r),
                (Values::F32(l), Values::F32(r)) => Values::F32(l & r),
                (Values::F64(l), Values::F64(r)) => Values::F64(l & r),
                _ => *self,
            },
    {
        match (self, other) {
            (Values::I32(l), Values::I32(r)) => Values::I32(*l & *r),
            (Values::I64(l), Values::I64(r)) => Values::I64(*l & *r),
            (Values::F32(l), Values::F32(r)) => Values::F32(*l & *r),
            (Values::F64(l), Values::F64(r)) => Values::F64(*l & *r),
            _ => *self,
        }
    }

    /// Bitwise or; on a float, of its bits.
    pub fn or(&self, other: &Values) -> (r: Values)
        requires
            self.value_type_spec() == other.value_type_spec(),
        ensures
            r == match (*self, *other) {
                (Values::I32(l), Values::I32(r)) => Values::I32(l | r),
                (Values::I64(l), Values::I64(r)) => Values::I64(l | r),
                (Values::F32(l), Values::F32(r)) => Values::F32(l | r),
                (Values::F64(l), Values::F64(r)) => Values::F64(l | r),
                _ => *self,
            },
    {
        match (self, other) {
            (Values::I32(l), Values::I32(r)) => Values::I32(*l | *r),
            (Values::I64(l), Values::I64(r)) => Values::I64(*l | *r),
            (Values::F32(l), Values::F32(r)) => Values::F32(*l | *r),
            (Values::F64(l), Values::F64(r)) => Values::F64(*l | *r),
            _ => *self,
        }
    }

    /// Bitwise exclusive or; on a float, of its bits.
    pub fn xor(&self, other: &Values) -> (r: Values)
        requires
            self.value_type_spec() == other.value_type_spec(),
        ensures
            r == match (*self, *other) {
                (Values::I32(l), Values::I32(r)) => Values::I32(l ^ r),
                (Values::I64(l), Values::I64(r)) => Values::I64(l ^ r),
                (Values::F32(l), Values::F32(r)) => Values::F32(l ^ r),
                (Values::F64(l), Values::F64(r)) => Values::F64(l ^ r),
                _ => *self,
            },
    {
        match (self, other) {
            (Values::I32(l), Values::I32(r)) => Values::I32(*l ^ *r),
            (Values::I64(l), Values::I64(r)) => Values::I64(*l ^ *r),
            (Values::F32(l), Values::F32(r)) => Values::F32(*l ^ *r),
            (Values::F64(l), Values::F64(r)) => Values::F64(*l ^ *r),
            _ => *self,
        }
    }

    /// Integer addition, wrapping.
    pub fn add(&self, other: &Values) -> (r: Values)
        requires
            int_pair(*self, *other),
        ensures
            r == match (*self, *other) {
                (Values::I32(l), Values::I32(r)) => Values::I32(l.wrapping_add(r)),
                (Values::I64(l), Values::I64(r)) => Values::I64(l.wrapping_add(r)),
                _ => *self,
            },
    {
        match (self, other) {
            (Values::I32(l), Values::I32(r)) => Values::I32(l.wrapping_add(*r)),
            (Values::I64(l), Values::I64(r)) => Values::I64(l.wrapping_add(*r)),
            _ => *self,
        }
    }

    /// Integer subtraction, wrapping.
    pub fn sub(&self, other: &Values) -> (r: Values)
        requires
            int_pair(*self, *other),
        ensures
            r == match (*self, *other) {
                (Values::I32(l), Values::I32(r)) => Values::I32(l.wrapping_sub(r)),
                (Values::I64(l), Values::I64(r)) => Values::I64(l.wrapping_sub(r)),
                _ => *self,
            },
    {
        match (self, other) {
            (Values::I32(l), Values::I32(r)) => Values::I32(l.wrapping_sub(*r)),
            (Values::I64(l), Values::I64(r)) => Values::I64(l.wrapping_sub(*r)),
            _ => *self,
        }
    }

    /// Integer multiplication, wrapping.
    pub fn mul(&self, other: &Values) -> (r: Values)
        requires
            int_pair(*self, *other),
        ensures
            r == match (*self, *other) {
                (Values::I32(l), Values::I32(r)) => Values::I32(l.wrapping_mul(r)),
                (Values::I64(l), Values::I64(r)) => Values::I64(l.wrapping_mul(r)),
                _ => *self,
            },
    {
        match (self, other) {
            (Values::I32(l), Values::I32(r)) => Values::I32(l.wrapping_mul(*r)),
            (Values::I64(l), Values::I64(r)) => Values::I64(l.wrapping_mul(*r)),
            _ => *self,
        }
    }

    /// Signed division; by zero, and of the least value by -1, it traps.
    pub fn div_s(&self, other: &Values) -> (r: Result<Values, Trap>)
        requires
            int_pair(*self, *other),
        ensures
            match (*self, *other) {
                (Values::I32(l), Values::I32(d)) => if d == 0 {
                    r == Err::<Values, Trap>(Trap::DivisionByZero)
                } else if l == i32::MIN && d == -1 {
                    r == Err::<Values, Trap>(Trap::DivisionOverflow)
                } else {
                    r == Ok::<Values, Trap>(Values::I32(trunc_div(l as int, d as int) as i32))
                },
                (Values::I64(l), Values::I64(d)) => if d == 0 {
                    r == Err::<Values, Trap>(Trap::DivisionByZero)
                } else if l == i64::MIN && d == -1 {
                    r == Err::<Values, Trap>(Trap::DivisionOverflow)
                } else {
                    r == Ok::<Values, Trap>(Values::I64(trunc_div(l as int, d as int) as i64))
                },
                _ => true,
            },
    {
        match (self, other) {
            (Values::I32(l), Values::I32(d)) => {
                if *d == 0 {
                    return Err(Trap::DivisionByZero);
                }
                proof {
                    if !(*l == i32::MIN && *d == -1) {
                        lemma_trunc_div_range(*l as int, *d as int, i32::MIN as int, i32::MAX as int);
                    }
                }
                match l.checked_div(*d) {
                    Some(q) => Ok(Values::I32(q)),
                    None => Err(Trap::DivisionOverflow),
                }
            },
            (Values::I64(l), Values::I64(d)) => {
                if *d == 0 {
                    return Err(Trap::DivisionByZero);
                }
                proof {
                    if !(*l == i64::MIN && *d == -1) {
                        lemma_trunc_div_range(*l as int, *d as int, i64::MIN as int, i64::MAX as int);
                    }
                }
                match l.checked_div(*d) {
                    Some(q) => Ok(Values::I64(q)),
                    None => Err(Trap::DivisionOverflow),
                }
            },
            _ => Err(Trap::TypeMismatch),
        }
    }

    /// Unsigned division; by zero it traps.
    pub fn div_u(&self, other: &Values) -> (r: Result<Values, Trap>)
        requires
            int_pair(*self, *other),
        ensures
            match (*self, *other) {
                (Values::I32(l), Values::I32(d)) => if d == 0 {
                    r == Err::<Values, Trap>(Trap::DivisionByZero)
                } else {
                    r == Ok::<Values, Trap>(Values::I32(((l as u32) / (d as u32)) as i32))
                },
                (Values::I64(l), Values::I64(d)) => if d == 0 {
                    r == Err::<Values, Trap>(Trap::DivisionByZero)
                } else {
                    r == Ok::<Values, Trap>(Values::I64(((l as u64) / (d as u64)) as i64))
                },
                _ => true,
            },
    {
        match (self, other) {
            (Values::I32(l), Values::I32(d)) => {
                if *d == 0 {
                    return Err(Trap::DivisionByZero);
                }
                let dd = *d as u32;
                assert(dd != 0) by (bit_vector)
                    requires
                        dd == *d as u32,
                        *d != 0,
                ;
                Ok(Values::I32(((*l as u32) / dd) as i32))
            },
            (Values::I64(l), Values::I64(d)) => {
                if *d == 0 {
                    return Err(Trap::DivisionByZero);
                }
                let dd = *d as u64;
                assert(dd != 0) by (bit_vector)
                    requires
                        dd == *d as u64,
                        *d != 0,
                ;
                Ok(Values::I64(((*l as u64) / dd) as i64))
            },
            _ => Err(Trap::TypeMismatch),
        }
    }

    /// Signed remainder, with the sign of the dividend; by zero it traps, and
    /// the least value by -1 gives 0.
    pub fn rem_s(&self, other: &Values) -> (r: Result<Values, Trap>)
        requires
            int_pair(*self, *other),
        ensures
            match (*self, *other) {
                (Values::I32(l), Values::I32(d)) => if d == 0 {
                    r == Err::<Values, Trap>(Trap::DivisionByZero)
                } else if l == i32::MIN && d == -1 {
                    r == Ok::<Values, Trap>(Values::I32(0))
                } else {
                    r == Ok::<Values, Trap>(Values::I32(trunc_rem(l as int, d as int) as i32))
                },
                (Values::I64(l), Values::I64(d)) => if d == 0 {
                    r == Err::<Values, Trap>(Trap::DivisionByZero)
                } else if l == i64::MIN && d == -1 {
                    r == Ok::<Values, Trap>(Values::I64(0))
                } else {
                    r == Ok::<Values, Trap>(Values::I64(trunc_rem(l as int, d as int) as i64))
                },
                _ => true,
            },
    {
        match (self, other) {
            (Values::I32(l), Values::I32(d)) => {
                if *d == 0 {
                    return Err(Trap::DivisionByZero);
                }
                match l.checked_rem(*d) {
                    Some(q) => Ok(Values::I32(q)),
                    None => Ok(Values::I32(0)),
                }
            },
            (Values::I64(l), Values::I64(d)) => {
                if *d == 0 {
                    return Err(Trap::DivisionByZero);
                }
                match l.checked_rem(*d) {
                    Some(q) => Ok(Values::I64(q)),
                    None => Ok(Values::I64(0)),
                }
            },
            _ => Err(Trap::TypeMismatch),
        }
    }

    /// Unsigned remainder; by zero it traps.
    pub fn rem_u(&self, other: &Values) -> (r: Result<Values, Trap>)
        requires
            int_pair(*self, *other),
        ensures
            match (*self, *other) {
                (Values::I32(l), Values::I32(d)) => if d == 0 {
                    r == Err::<Values, Trap>(Trap::DivisionByZero)
                } else {
                    r == Ok::<Values, Trap>(Values::I32(((l as u32) % (d as u32)) as i32))
                },
                (Values::I64(l), Values::I64(d)) => if d == 0 {
                    r == Err::<Values, Trap>(Trap::DivisionByZero)
                } else {
                    r == Ok::<Values, Trap>(Values::I64(((l as u64) % (d as u64)) as i64))
                },
                _ => true,
            },
    {
        match (self, other) {
            (Values::I32(l), Values::I32(d)) => {
                if *d == 0 {
                    return Err(Trap::DivisionByZero);
                }
                let dd = *d as u32;
                assert(dd != 0) by (bit_vector)
                    requires
                        dd == *d as u32,
                        *d != 0,
                ;
                Ok(Values::I32(((*l as u32) % dd) as i32))
            },
            (Values::I64(l), Values::I64(d)) => {
                if *d == 0 {
                    return Err(Trap::DivisionByZero);
                }
                let dd = *d as u64;
                assert(dd != 0) by (bit_vector)
                    requires
                        dd == *d as u64,
                        *d != 0,
                ;
                Ok(Values::I64(((*l as u64) % dd) as i64))
            },
            _ => Err(Trap::TypeMismatch),
        }
    }
}

/// The same bits read as the other type of the same width.
pub open spec fn spec_reinterpret(v: Values) -> Values {
    match v {
        Values::I32(n) => Values::F32(n as u32),
        Values::I64(n) => Values::F64(n as u64),
        Values::F32(b) => Values::I32(b as i32),
        Values::F64(b) => Values::I64(b as i64),
    }
}

/// `x` rotated left by `n` bits within 32 bits.
pub open spec fn rotl32(x: u32, n: u32) -> u32 {
    let k = n % 32;
    if k == 0 {
        x
    } else {
        (x << k) | (x >> ((32 - k) as u32))
    }
}

/// `x` rotated left by `n` bits within 64 bits.
pub open spec fn rotl64(x: u64, n: u64) -> u64 {
    let k = n % 64;
    if k == 0 {
        x
    } else {
        (x << k) | (x >> ((64 - k) as u64))
    }
}

impl Values {
    /// Signed comparison of integers, giving 1 or 0: `less`, or, with `or_equal`, less or equal;
    /// with `greater`, greater (or greater or equal).
    fn compare_signed(&self, other: &Values, greater: bool, or_equal: bool) -> (r: Values)
        requires
            int_pair(*self, *other),
        ensures
            r == Values::I32(bool_i32(match (*self, *other) {
                (Values::I32(l), Values::I32(r)) => if greater {
                    if or_equal { l >= r } else { l > r }
                } else {
                    if or_equal { l <= r } else { l < r }
                },
                (Values::I64(l), Values::I64(r)) => if greater {
                    if or_equal { l >= r } else { l > r }
                } else {
                    if or_equal { l <= r } else { l < r }
                },
                _ => false,
            })),
    {
        let b = match (self, other) {
            (Values::I32(l), Values::I32(r)) => if greater {
                if or_equal { *l >= *r } else { *l > *r }
            } else {
                if or_equal { *l <= *r } else { *l < *r }
            },
            (Values::I64(l), Values::I64(r)) => if greater {
                if or_equal { *l >= *r } else { *l > *r }
            } else {
                if or_equal { *l <= *r } else { *l < *r }
            },
            _ => false,
        };
        Values::I32(if b { 1 } else { 0 })
    }

    /// Unsigned comparison of integers, giving 1 or 0.
    fn compare_unsigned(&self, other: &Values, greater: bool, or_equal: bool) -> (r: Values)
        requires
            int_pair(*self, *other),
        ensures
            r == Values::I32(bool_i32(match (*self, *other) {
                (Values::I32(l), Values::I32(r)) => {
                    let (a, b) = (l as u32, r as u32);
                    if greater {
                        if or_equal { a >= b } else { a > b }
                    } else {
                        if or_equal { a <= b } else { a < b }
                    }
                },
                (Values::I64(l), Values::I64(r)) => {
                    let (a, b) = (l as u64, r as u64);
                    if greater {
                        if or_equal { a >= b } else { a > b }
                    } else {
                        if or_equal { a <= b } else { a < b }
                    }
                },
                _ => false,
            })),
    {
        let b = match (self, other) {
            (Values::I32(l), Values::I32(r)) => {
                let (a, b) = (*l as u32, *r as u32);
                if greater {
                    if or_equal { a >= b } else { a > b }
                } else {
                    if or_equal { a <= b } else { a < b }
                }
            },
            (Values::I64(l), Values::I64(r)) => {
                let (a, b) = (*l as u64, *r as u64);
                if greater {
                    if or_equal { a >= b } else { a > b }
                } else {
                    if or_equal { a <= b } else { a < b }
                }
            },
            _ => false,
        };
        Values::I32(if b { 1 } else { 0 })
    }

    /// 1 when `self < other`, signed; else 0.
    pub fn less_than(&self, other: &Values) -> (r: Values)
        requires
            int_pair(*self, *other),
        ensures
            r == self.compare_spec(*other, false, false, false),
    {
        self.compare_signed(other, false, false)
    }

    /// 1 when `self <= other`, signed; else 0.
    pub fn less_than_equal(&self, other: &Values) -> (r: Values)
        requires
            int_pair(*self, *other),
        ensures
            r == self.compare_spec(*other, false, true, false),
    {
        self.compare_signed(other, false, true)
    }

    /// 1 when `self > other`, signed; else 0.
    pub fn greater_than(&self, other: &Values) -> (r: Values)
        requires
            int_pair(*self, *other),
        ensures
            r == self.compare_spec(*other, true, false, false),
    {
        self.compare_signed(other, true, false)
    }

    /// 1 when `self >= other`, signed; else 0.
    pub fn greater_than_equal(&self, other: &Values) -> (r: Values)
        requires
            int_pair(*self, *other),
        ensures
            r == self.compare_spec(*other, true, true, false),
    {
        self.compare_signed(other, true, true)
    }

    /// 1 when `self < other`, unsigned; else 0.
    pub fn less_than_unsign(&self, other: &Values) -> (r: Values)
        requires
            int_pair(*self, *other),
        ensures
            r == self.compare_spec(*other, false, false, true),
    {
        self.compare_unsigned(other, false, false)
    }

    /// 1 when `self <= other`, unsigned; else 0.
    pub fn less_than_equal_unsign(&self, other: &Values) -> (r: Values)
        requires
            int_pair(*self, *other),
        ensures
            r == self.compare_spec(*other, false, true, true),
    {
        self.compare_unsigned(other, false, true)
    }

    /// 1 when `self > other`, unsigned; else 0.
    pub fn greater_than_unsign(&self, other: &Values) -> (r: Values)
        requires
            int_pair(*self, *other),
        ensures
            r == self.compare_spec(*other, true, false, true),
    {
        self.compare_unsigned(other, true, false)
    }

    /// 1 when `self >= other`, unsigned; else 0.
    pub fn greater_than_equal_unsign(&self, other: &Values) -> (r: Values)
        requires
            int_pair(*self, *other),
        ensures
            r == self.compare_spec(*other, true, true, true),
    {
        self.compare_unsigned(other, true, true)
    }

    /// The outcome of a comparison of integers as an `i32` 1 or 0.
    pub open spec fn compare_spec(self, other: Values, greater: bool, or_equal: bool, unsigned: bool) -> Values {
        let (a, b): (int, int) = match (self, other) {
            (Values::I32(l), Values::I32(r)) => if unsigned { ((l as u32) as int, (r as u32) as int) } else { (l as int, r as int) },
            (Values::I64(l), Values::I64(r)) => if unsigned { ((l as u64) as int, (r as u64) as int) } else { (l as int, r as int) },
            _ => (0, 0),
        };
        Values::I32(bool_i32(if greater {
            if or_equal { a >= b } else { a > b }
        } else {
            if or_equal { a <= b } else { a < b }
        }))
    }

    /// 1 when the integers are equal, else 0.
    pub fn equal(&self, other: &Values) -> (r: Values)
        requires
            int_pair(*self, *other),
        ensures
            r == Values::I32(bool_i32(*self == *other)),
    {
        Values::I32(if *self == *other { 1 } else { 0 })
    }

    /// 1 when the integers differ, else 0.
    pub fn not_equal(&self, other: &Values) -> (r: Values)
        requires
            int_pair(*self, *other),
        ensures
            r == Values::I32(bool_i32(*self != *other)),
    {
        Values::I32(if *self != *other { 1 } else { 0 })
    }

    /// 1 when the integer is zero, else 0.
    pub fn equal_zero(&self) -> (r: Values)
        requires
            is_int(*self),
        ensures
            r == Values::I32(bool_i32(*self == Values::I32(0) || *self == Values::I64(0))),
    {
        let z = match self {
            Values::I32(v) => *v == 0,
            Values::I64(v) => *v == 0,
            _ => false,
        };
        Values::I32(if z { 1 } else { 0 })
    }

    /// Shifts left by the right operand modulo the width.
    pub fn shift_left(&self, other: &Values) -> (r: Values)
        requires
            int_pair(*self, *other),
        ensures
            r == match (*self, *other) {
                (Values::I32(l), Values::I32(n)) => Values::I32(l.wrapping_shl(n as u32)),
                (Values::I64(l), Values::I64(n)) => Values::I64(l.wrapping_shl(n as u32)),
                _ => *self,
            },
    {
        match (self, other) {
            (Values::I32(l), Values::I32(n)) => Values::I32(l.wrapping_shl(*n as u32)),
            (Values::I64(l), Values::I64(n)) => Values::I64(l.wrapping_shl(*n as u32)),
            _ => *self,
        }
    }

    /// Shifts right, copying the sign bit, by the right operand modulo the width.
    pub fn shift_right_sign(&self, other: &Values) -> (r: Values)
        requires
            int_pair(*self, *other),
        ensures
            r == match (*self, *other) {
                (Values::I32(l), Values::I32(n)) => Values::I32(l.wrapping_shr(n as u32)),
                (Values::I64(l), Values::I64(n)) => Values::I64(l.wrapping_shr(n as u32)),
                _ => *self,
            },
    {
        match (self, other) {
            (Values::I32(l), Values::I32(n)) => Values::I32(l.wrapping_shr(*n as u32)),
            (Values::I64(l), Values::I64(n)) => Values::I64(l.wrapping_shr(*n as u32)),
            _ => *self,
        }
    }

    /// Shifts right, filling with zeros, by the right operand modulo the width.
    pub fn shift_right_unsign(&self, other: &Values) -> (r: Values)
        requires
            int_pair(*self, *other),
        ensures
            r == match (*self, *other) {
                (Values::I32(l), Values::I32(n)) => Values::I32((l as u32).wrapping_shr(n as u32) as i32),
                (Values::I64(l), Values::I64(n)) => Values::I64((l as u64).wrapping_shr(n as u32) as i64),
                _ => *self,
            },
    {
        match (self, other) {
            (Values::I32(l), Values::I32(n)) => Values::I32((*l as u32).wrapping_shr(*n as u32) as i32),
            (Values::I64(l), Values::I64(n)) => Values::I64((*l as u64).wrapping_shr(*n as u32) as i64),
            _ => *self,
        }
    }

    /// Rotates left by the right operand modulo the width.
    pub fn wasm_rotate_left(&self, other: &Values) -> (r: Values)
        requires
            int_pair(*self, *other),
        ensures
            r == match (*self, *other) {
                (Values::I32(l), Values::I32(n)) => Values::I32(rotl32(l as u32, n as u32) as i32),
                (Values::I64(l), Values::I64(n)) => Values::I64(rotl64(l as u64, n as u64) as i64),
                _ => *self,
            },
    {
        match (self, other) {
            (Values::I32(l), Values::I32(n)) => {
                let x = *l as u32;
                let k = (*n as u32) % 32;
                let v = if k == 0 { x } else { (x << k) | (x >> (32 - k)) };
                Values::I32(v as i32)
            },
            (Values::I64(l), Values::I64(n)) => {
                let x = *l as u64;
                let k = (*n as u64) % 64;
                let v = if k == 0 { x } else { (x << k) | (x >> (64 - k)) };
                Values::I64(v as i64)
            },
            _ => *self,
        }
    }

    /// Rotates right by the right operand modulo the width: a rotation left by
    /// the width less that amount.
    pub fn wasm_rotate_right(&self, other: &Values) -> (r: Values)
        requires
            int_pair(*self, *other),
        ensures
            r == match (*self, *other) {
                (Values::I32(l), Values::I32(n)) => Values::I32(rotl32(l as u32, (32 - (n as u32) % 32) as u32) as i32),
                (Values::I64(l), Values::I64(n)) => Values::I64(rotl64(l as u64, (64 - (n as u64) % 64) as u64) as i64),
                _ => *self,
            },
    {
        match (self, other) {
            (Values::I32(l), Values::I32(n)) => {
                let x = *l as u32;
                let k = (32 - (*n as u32) % 32) % 32;
                let v = if k == 0 { x } else { (x << k) | (x >> (32 - k)) };
                Values::I32(v as i32)
            },
            (Values::I64(l), Values::I64(n)) => {
                let x = *l as u64;
                let k = (64 - (*n as u64) % 64) % 64;
                let v = if k == 0 { x } else { (x << k) | (x >> (64 - k)) };
                Values::I64(v as i64)
            },
            _ => *self,
        }
    }

    /// The number of leading zero bits, in the type of the operand.
    pub fn count_leading_zero(&self) -> (r: Values)
        requires
            is_int(*self),
        ensures
            r == match *self {
                Values::I32(_) => Values::I32(leading_zeros(int_bits(*self).0, 32) as i32),
                Values::I64(_) => Values::I64(leading_zeros(int_bits(*self).0, 64) as i64),
                _ => *self,
            },
    {
        match self {
            Values::I32(v) => Values::I32(count_bits((*v as u32) as u64, 32, 0) as i32),
            Values::I64(v) => Values::I64(count_bits(*v as u64, 64, 0) as i64),
            _ => *self,
        }
    }

    /// The number of trailing zero bits, in the type of the operand.
    pub fn count_trailing_zero(&self) -> (r: Values)
        requires
            is_int(*self),
        ensures
            r == match *self {
                Values::I32(_) => Values::I32(trailing_zeros(int_bits(*self).0, 0, 32) as i32),
                Values::I64(_) => Values::I64(trailing_zeros(int_bits(*self).0, 0, 64) as i64),
                _ => *self,
            },
    {
        match self {
            Values::I32(v) => Values::I32(count_bits((*v as u32) as u64, 32, 1) as i32),
            Values::I64(v) => Values::I64(count_bits(*v as u64, 64, 1) as i64),
            _ => *self,
        }
    }

    /// The number of set bits, in the type of the operand.
    pub fn pop_count(&self) -> (r: Values)
        requires
            is_int(*self),
        ensures
            r == match *self {
                Values::I32(_) => Values::I32(ones(int_bits(*self).0, 32) as i32),
                Values::I64(_) => Values::I64(ones(int_bits(*self).0, 64) as i64),
                _ => *self,
            },
    {
        match self {
            Values::I32(v) => Values::I32(count_bits((*v as u32) as u64, 32, 2) as i32),
            Values::I64(v) => Values::I64(count_bits(*v as u64, 64, 2) as i64),
            _ => *self,
        }
    }

    /// An `i32` extended to 64 bits with zeros.
    pub fn extend_u32_to_i64(&self) -> (r: Values)
        requires
            *self is I32,
        ensures
            r == Values::I64(((self->I32_0 as u32) as i64)),
    {
        match self {
            Values::I32(l) => Values::I64((*l as u32) as i64),
            _ => *self,
        }
    }

    /// An `i32` extended to 64 bits with its sign.
    pub fn extend_i32_to_i64(&self) -> (r: Values)
        requires
            *self is I32,
        ensures
            r == Values::I64(self->I32_0 as i64),
    {
        match self {
            Values::I32(l) => Values::I64(*l as i64),
            _ => *self,
        }
    }

    /// The low 32 bits of an `i64`.
    pub fn wrap_i64_to_i32(&self) -> (r: Values)
        requires
            *self is I64,
        ensures
            r == Values::I32(self->I64_0 as i32),
    {
        match self {
            Values::I64(l) => Values::I32(*l as i32),
            _ => *self,
        }
    }

    /// The same bits read as the other type of the same width.
    pub fn reinterpret(&self) -> (r: Values)
        ensures
            r == spec_reinterpret(*self),
    {
        match self {
            Values::I32(n) => Values::F32(*n as u32),
            Values::I64(n) => Values::F64(*n as u64),
            Values::F32(b) => Values::I32(*b as i32),
            Values::F64(b) => Values::I64(*b as i64),
        }
    }
}

/// Reinterpreting twice gives the value back.
pub proof fn lemma_reinterpret_roundtrip(v: Values)
    ensures
        spec_reinterpret(spec_reinterpret(v)) == v,
{
    match v {
        Values::I32(n) => {
            assert((n as u32) as i32 == n) by (bit_vector);
        },
        Values::I64(n) => {
            assert((n as u64) as i64 == n) by (bit_vector);
        },
        Values::F32(b) => {
            assert((b as i32) as u32 == b) by (bit_vector);
        },
        Values::F64(b) => {
            assert((b as i64) as u64 == b) by (bit_vector);
        },
    }
}

} // verus!
