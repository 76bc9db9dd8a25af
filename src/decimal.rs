use vstd::prelude::*;

verus! {

/// Number of raw units that make up one whole unit of a fixed-point decimal.
pub const DECIMAL_ONE: u128 = 1_000_000_000_000_000_000;

/// Failure of a fixed-point operation.
#[derive(Debug, Clone, Copy, PartialEq, Eq, Structural)]
pub enum MathError {
    Overflow,
    DivisionByZero,
}

/// Reads an executable result as a mathematical one.
pub open spec fn as_int(r: Result<u128, MathError>) -> Result<int, MathError> {
    match r {
        Ok(v) => Ok(v as int),
        Err(e) => Err(e),
    }
}

/// `a * b` in fixed point, rounded down; defined when the result fits in 128 bits.
pub open spec fn mul_spec(a: int, b: int) -> Result<int, MathError> {
    if a * b / DECIMAL_ONE as int > u128::MAX {
        Err(MathError::Overflow)
    } else {
        Ok(a * b / DECIMAL_ONE as int)
    }
}

/// `a / b` in fixed point, rounded down; defined when `b` is not zero and `a * ONE` fits.
pub open spec fn div_spec(a: int, b: int) -> Result<int, MathError> {
    if b == 0 {
        Err(MathError::DivisionByZero)
    } else if a * DECIMAL_ONE > u128::MAX {
        Err(MathError::Overflow)
    } else {
        Ok(a * DECIMAL_ONE as int / b)
    }
}

/// `base` raised to the integer power `n`, by squaring, each product rounded down.
pub open spec fn pow_spec(base: int, n: nat) -> Result<int, MathError>
    decreases n,
{
    if n == 0 {
        Ok(DECIMAL_ONE as int)
    } else {
        match pow_spec(base, n / 2) {
            Err(e) => Err(e),
            Ok(h) => match mul_spec(h, h) {
                Err(e) => Err(e),
                Ok(sq) => if n % 2 == 0 {
                    Ok(sq)
                } else {
                    mul_spec(sq, base)
                },
            },
        }
    }
}

/// `(1 + rate)^seconds` in fixed point.
pub open spec fn compound_spec(rate: int, seconds: nat) -> Result<int, MathError> {
    if rate + DECIMAL_ONE > u128::MAX {
        Err(MathError::Overflow)
    } else {
        pow_spec(rate + DECIMAL_ONE, seconds)
    }
}

proof fn lemma_mul_split(a: int, b: int)
    requires
        0 <= a,
        0 <= b,
    ensures
        ({
            let one = DECIMAL_ONE as int;
            let (a1, a0, b1, b0) = (a / one, a % one, b / one, b % one);
            &&& a * b / one == a1 * b1 * one + a1 * b0 + a0 * b1 + a0 * b0 / one
            &&& 0 <= a1 * b1 <= a1 * b1 * one
            &&& 0 <= a1 * b0
            &&& 0 <= a0 * b1
            &&& 0 <= a0 * b0 < one * one
            &&& 0 <= a0 * b0 / one
        }),
{
    let one = DECIMAL_ONE as int;
    let (a1, a0, b1, b0) = (a / one, a % one, b / one, b % one);
    assert(a == a1 * one + a0 && 0 <= a0 < one && 0 <= a1) by (nonlinear_arith)
        requires
            a1 == a / one,
            a0 == a % one,
            one > 0,
            a >= 0,
    ;
    assert(b == b1 * one + b0 && 0 <= b0 < one && 0 <= b1) by (nonlinear_arith)
        requires
            b1 == b / one,
            b0 == b % one,
            one > 0,
            b >= 0,
    ;
    let x = a1 * b1 * one + a1 * b0 + a0 * b1;
    assert(a * b == x * one + a0 * b0) by (nonlinear_arith)
        requires
            a == a1 * one + a0,
            b == b1 * one + b0,
            x == a1 * b1 * one + a1 * b0 + a0 * b1,
    ;
    assert((x * one + a0 * b0) / one == x + a0 * b0 / one) by (nonlinear_arith)
        requires
            one > 0,
    ;
    assert(0 <= a1 * b1 <= a1 * b1 * one && 0 <= a1 * b0 && 0 <= a0 * b1 && 0 <= a0 * b0 < one
        * one && 0 <= a0 * b0 / one) by (nonlinear_arith)
        requires
            0 <= a1,
            0 <= b1,
            0 <= a0 < one,
            0 <= b0 < one,
            one > 0,
    ;
}

/// Fixed-point multiplication, rounded down. Also multiplies an integer amount by a decimal.
/// Computed exactly on the whole and fractional parts, so it fails only when the result
/// itself does not fit.
pub fn decimal_mul(a: u128, b: u128) -> (r: Result<u128, MathError>)
    ensures
        as_int(r) == mul_spec(a as int, b as int),
{
    proof {
        lemma_mul_split(a as int, b as int);
    }
    let (a1, a0, b1, b0) = (a / DECIMAL_ONE, a % DECIMAL_ONE, b / DECIMAL_ONE, b % DECIMAL_ONE);
    let whole = match a1.checked_mul(b1) {
        Some(w) => w,
        None => return Err(MathError::Overflow),
    };
    let whole = match whole.checked_mul(DECIMAL_ONE) {
        Some(w) => w,
        None => return Err(MathError::Overflow),
    };
    let cross1 = match a1.checked_mul(b0) {
        Some(c) => c,
        None => return Err(MathError::Overflow),
    };
    let cross2 = match a0.checked_mul(b1) {
        Some(c) => c,
        None => return Err(MathError::Overflow),
    };
    let frac = a0 * b0 / DECIMAL_ONE;
    let sum = match whole.checked_add(cross1) {
        Some(s) => s,
        None => return Err(MathError::Overflow),
    };
    let sum = match sum.checked_add(cross2) {
        Some(s) => s,
        None => return Err(MathError::Overflow),
    };
    match sum.checked_add(frac) {
        Some(s) => Ok(s),
        None => Err(MathError::Overflow),
    }
}

/// Fixed-point division, rounded down. Also divides an integer amount by a decimal.
pub fn decimal_div(a: u128, b: u128) -> (r: Result<u128, MathError>)
    ensures
        as_int(r) == div_spec(a as int, b as int),
{
    if b == 0 {
        return Err(MathError::DivisionByZero);
    }
    match a.checked_mul(DECIMAL_ONE) {
        Some(p) => Ok(p / b),
        None => Err(MathError::Overflow),
    }
}

/// Integer power of a fixed-point value by repeated squaring.
pub fn decimal_pow(base: u128, n: u64) -> (r: Result<u128, MathError>)
    ensures
        as_int(r) == pow_spec(base as int, n as nat),
    decreases n,
{
    if n == 0 {
        return Ok(DECIMAL_ONE);
    }
    let half = decimal_pow(base, n / 2)?;
    let sq = decimal_mul(half, half)?;
    if n % 2 == 0 {
        Ok(sq)
    } else {
        decimal_mul(sq, base)
    }
}

/// Compounding factor `(1 + rate)^seconds` of a per-second rate.
pub fn one_plus_rate_pow(rate: u128, seconds: u64) -> (r: Result<u128, MathError>)
    ensures
        as_int(r) == compound_spec(rate as int, seconds as nat),
{
    match rate.checked_add(DECIMAL_ONE) {
        Some(base) => decimal_pow(base, seconds),
        None => Err(MathError::Overflow),
    }
}

/// Multiplying by a factor of at least one never lowers a value.
pub proof fn lemma_mul_not_below(a: int, b: int)
    requires
        0 <= a,
        DECIMAL_ONE <= b,
    ensures
        a * b / DECIMAL_ONE as int >= a,
{
    let one = DECIMAL_ONE as int;
    assert(a * b >= a * one) by (nonlinear_arith)
        requires
            0 <= a,
            one <= b,
    ;
    assert(a * one / one == a) by (nonlinear_arith)
        requires
            one > 0,
    ;
    assert(a * b / one >= a * one / one) by (nonlinear_arith)
        requires
            a * b >= a * one,
            one > 0,
    ;
}

/// A power of a factor of at least one is at least one.
pub proof fn lemma_pow_at_least_one(base: int, n: nat)
    requires
        DECIMAL_ONE <= base,
    ensures
        pow_spec(base, n) is Ok ==> pow_spec(base, n)->Ok_0 >= DECIMAL_ONE,
    decreases n,
{
    if n > 0 {
        lemma_pow_at_least_one(base, n / 2);
        if let Ok(h) = pow_spec(base, n / 2) {
            lemma_mul_not_below(h, h);
            if let Ok(sq) = mul_spec(h, h) {
                lemma_mul_not_below(sq, base);
            }
        }
    }
}

/// Any power of one is one.
pub proof fn lemma_pow_of_one(n: nat)
    ensures
        pow_spec(DECIMAL_ONE as int, n) == Ok::<int, MathError>(DECIMAL_ONE as int),
    decreases n,
{
    let one = DECIMAL_ONE as int;
    assert(one * one / one == one) by (nonlinear_arith)
        requires
            one > 0,
    ;
    if n > 0 {
        lemma_pow_of_one(n / 2);
    }
}

/// A compounding factor is at least one.
pub proof fn lemma_compound_at_least_one(rate: int, seconds: nat)
    requires
        0 <= rate,
    ensures
        compound_spec(rate, seconds) is Ok ==> compound_spec(rate, seconds)->Ok_0 >= DECIMAL_ONE,
{
    if rate + DECIMAL_ONE <= u128::MAX {
        lemma_pow_at_least_one(rate + DECIMAL_ONE, seconds);
    }
}

} // verus!
