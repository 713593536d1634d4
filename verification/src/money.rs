//! Integer money for the fictional CRD currency.
//!
//! Authoritative amounts are i64 minor units (100 minor = 1 CRD). Every
//! operation is checked: overflow is a typed error, never a wrap, never a
//! saturation, never a panic. There is no float conversion API.
use vstd::prelude::*;

verus! {

pub const MINOR_PER_CRD: i64 = 100;

/// Micro scale shared by score quantization (x1e6, floor-half-up form).
pub const MICRO: i64 = 1_000_000;

/// Largest basis-point ratio `mul_bp` accepts (a factor of 100).
pub const MAX_BP_RATIO: u32 = 1_000_000;

#[derive(Debug, Clone, Copy, PartialEq, Eq, Structural, PartialOrd, Ord, Hash)]
pub struct Money(pub i64);

#[derive(Debug, Clone, Copy, PartialEq, Eq, Structural)]
pub enum MoneyError {
    Overflow,
    NegativeAmount,
    ZeroAmount,
    InvalidRatio,
}

pub open spec fn i128_fits(v: int) -> bool {
    i128::MIN <= v <= i128::MAX
}

pub open spec fn i64_fits(v: int) -> bool {
    i64::MIN <= v <= i64::MAX
}

/// floor(n/d + 1/2) for d > 0, i.e. floor((2n + d) / (2d)).
pub open spec fn floor_half_up_spec(n: int, d: int) -> int {
    (2 * n + d) / (2 * d)
}

/// The intermediate values of `floor_half_up` stay inside i128.
pub open spec fn floor_half_up_fits(n: int, d: int) -> bool {
    &&& i128_fits(2 * n)
    &&& i128_fits(2 * n + d)
    &&& i128_fits(2 * d)
}

/// Outcome of `floor_half_up` on every input.
pub open spec fn floor_half_up_result(n: int, d: int) -> Result<int, MoneyError> {
    if d <= 0 {
        Err(MoneyError::InvalidRatio)
    } else if !floor_half_up_fits(n, d) {
        Err(MoneyError::Overflow)
    } else {
        Ok(floor_half_up_spec(n, d))
    }
}

/// Outcome of `Money::mul_bp`: the amount times `bp / 10_000`, floor-half-up.
pub open spec fn mul_bp_result(v: int, bp: int) -> Result<int, MoneyError> {
    if bp > MAX_BP_RATIO {
        Err(MoneyError::InvalidRatio)
    } else if !i64_fits(floor_half_up_spec(v * bp, 10_000)) {
        Err(MoneyError::Overflow)
    } else {
        Ok(floor_half_up_spec(v * bp, 10_000))
    }
}

impl Money {
    pub fn from_minor(v: i64) -> (m: Money)
        ensures
            m.0 == v,
    {
        Money(v)
    }

    pub fn minor(self) -> (v: i64)
        ensures
            v == self.0,
    {
        self.0
    }

    /// Strictly positive construction for posting amounts: the sign of a
    /// ledger movement lives in `Side`, never in the amount.
    pub fn positive_minor(v: i64) -> (r: Result<Money, MoneyError>)
        ensures
            v < 0 ==> r == Err::<Money, MoneyError>(MoneyError::NegativeAmount),
            v == 0 ==> r == Err::<Money, MoneyError>(MoneyError::ZeroAmount),
            v > 0 ==> r == Ok::<Money, MoneyError>(Money(v)),
    {
        if v < 0 {
            return Err(MoneyError::NegativeAmount);
        }
        if v == 0 {
            return Err(MoneyError::ZeroAmount);
        }
        Ok(Money(v))
    }

    pub fn checked_add(self, rhs: Money) -> (r: Result<Money, MoneyError>)
        ensures
            i64_fits(self.0 + rhs.0) ==> r == Ok::<Money, MoneyError>(Money((self.0 + rhs.0) as i64)),
            !i64_fits(self.0 + rhs.0) ==> r == Err::<Money, MoneyError>(MoneyError::Overflow),
    {
        match self.0.checked_add(rhs.0) {
            Some(v) => Ok(Money(v)),
            None => Err(MoneyError::Overflow),
        }
    }

    pub fn checked_sub(self, rhs: Money) -> (r: Result<Money, MoneyError>)
        ensures
            i64_fits(self.0 - rhs.0) ==> r == Ok::<Money, MoneyError>(Money((self.0 - rhs.0) as i64)),
            !i64_fits(self.0 - rhs.0) ==> r == Err::<Money, MoneyError>(MoneyError::Overflow),
    {
        match self.0.checked_sub(rhs.0) {
            Some(v) => Ok(Money(v)),
            None => Err(MoneyError::Overflow),
        }
    }

    /// Multiply by basis points (1 bp = 1/10,000) with floor-half-up
    /// quantization on i128 intermediates. `bp` is capped at 1,000,000.
    pub fn mul_bp(self, bp: u32) -> (r: Result<Money, MoneyError>)
        ensures
            r == (match mul_bp_result(self.0 as int, bp as int) {
                Ok(v) => Ok::<Money, MoneyError>(Money(v as i64)),
                Err(e) => Err::<Money, MoneyError>(e),
            }),
    {
        if bp > MAX_BP_RATIO {
            return Err(MoneyError::InvalidRatio);
        }
        proof {
            lemma_bp_product_bounds(self.0 as int, bp as int);
        }
        let num = (self.0 as i128) * (bp as i128);
        let q = match floor_half_up(num, 10_000) {
            Ok(q) => q,
            Err(e) => return Err(e),
        };
        if q < i64::MIN as i128 || q > i64::MAX as i128 {
            return Err(MoneyError::Overflow);
        }
        Ok(Money(q as i64))
    }
}

proof fn lemma_bp_product_bounds(v: int, bp: int)
    requires
        i64::MIN <= v <= i64::MAX,
        0 <= bp <= 1_000_000,
    ensures
        -0x8000_0000_0000_0000 * 1_000_000 <= v * bp <= 0x7fff_ffff_ffff_ffff * 1_000_000,
{
    assert(-0x8000_0000_0000_0000 * 1_000_000 <= v * bp <= 0x7fff_ffff_ffff_ffff * 1_000_000)
        by (nonlinear_arith)
        requires
            i64::MIN <= v <= i64::MAX,
            0 <= bp <= 1_000_000,
    ;
}

/// floor(n/d + 1/2) for d > 0, in pure integer arithmetic:
/// `q = floor((2n + d) / (2d))` via euclidean division (exact for negatives).
pub fn floor_half_up(n: i128, d: i128) -> (r: Result<i128, MoneyError>)
    ensures
        r == (match floor_half_up_result(n as int, d as int) {
            Ok(v) => Ok::<i128, MoneyError>(v as i128),
            Err(e) => Err::<i128, MoneyError>(e),
        }),
        r is Ok ==> i128_fits(floor_half_up_spec(n as int, d as int)),
{
    if d <= 0 {
        return Err(MoneyError::InvalidRatio);
    }
    let two_n = match n.checked_mul(2) {
        Some(v) => v,
        None => return Err(MoneyError::Overflow),
    };
    let num = match two_n.checked_add(d) {
        Some(v) => v,
        None => return Err(MoneyError::Overflow),
    };
    let two_d = match d.checked_mul(2) {
        Some(v) => v,
        None => return Err(MoneyError::Overflow),
    };
    proof {
        lemma_floor_div_bounded(num as int, two_d as int);
    }
    match num.checked_div_euclid(two_d) {
        Some(q) => Ok(q),
        None => Err(MoneyError::Overflow),
    }
}

proof fn lemma_floor_div_bounded(num: int, den: int)
    requires
        den >= 2,
        i128_fits(num),
    ensures
        i128_fits(num / den),
{
    if num >= 0 {
        assert(0 <= num / den <= num) by (nonlinear_arith)
            requires num >= 0, den >= 2;
    } else {
        assert(num <= num / den < 0) by (nonlinear_arith)
            requires num < 0, den >= 2;
    }
}

/// The product of two i64 values stays well inside i128.
pub proof fn lemma_i64_product_bound(a: int, b: int)
    requires
        i64_fits(a),
        i64_fits(b),
    ensures
        -0x4000_0000_0000_0000_0000_0000_0000_0000 <= a * b <= 0x4000_0000_0000_0000_0000_0000_0000_0000,
{
    assert(-0x4000_0000_0000_0000_0000_0000_0000_0000 <= a * b <= 0x4000_0000_0000_0000_0000_0000_0000_0000)
        by (nonlinear_arith)
        requires
            -0x8000_0000_0000_0000 <= a <= 0x7fff_ffff_ffff_ffff,
            -0x8000_0000_0000_0000 <= b <= 0x7fff_ffff_ffff_ffff,
    ;
}

} // verus!
