use vstd::prelude::*;

verus! {

/// Number of fixed-point sub-units in one unit of work, weight or health.
/// All quantities in the simulation (demand, served, backlog, capacity,
/// gain, edge weight, modifier factor, health) are carried as `u64` counts
/// of these sub-units, so one unit is `SCALE` and one tenth is `SCALE / 10`.
pub const SCALE: u64 = 1000;

/// Saturating addition of two work quantities: sums are capped at
/// `u64::MAX` rather than wrapping.
pub open spec fn wadd(a: int, b: int) -> int {
    if a + b > u64::MAX {
        u64::MAX as int
    } else {
        a + b
    }
}

/// Fixed-point multiplication `a * b / SCALE`, capped at `u64::MAX`.
pub open spec fn scale_mul(a: int, b: int) -> int {
    if (a * b) / (SCALE as int) > u64::MAX {
        u64::MAX as int
    } else {
        (a * b) / (SCALE as int)
    }
}

/// The part of `t` apportioned to a numerator `num` out of a denominator
/// `den` (rounding down); `0` when the denominator is `0`.
pub open spec fn mul_div(t: int, num: int, den: int) -> int {
    if den == 0 {
        0
    } else {
        (t * num) / den
    }
}

/// Fixed-point ratio `s * SCALE / c`, capped at `u64::MAX`; `0` when `c == 0`.
pub open spec fn ratio_scaled(s: int, c: int) -> int {
    if c == 0 {
        0
    } else if (s * SCALE) / c > u64::MAX {
        u64::MAX as int
    } else {
        (s * SCALE) / c
    }
}

/// Saturating multiplication of a work quantity by a plain count.
pub open spec fn wmul(a: int, b: int) -> int {
    if a * b > u64::MAX {
        u64::MAX as int
    } else {
        a * b
    }
}

pub fn sat_mul(a: u64, b: u64) -> (r: u64)
    ensures
        r == wmul(a as int, b as int),
{
    proof {
        lemma_u64_prod_fits(a as int, b as int);
    }
    let p: u128 = (a as u128) * (b as u128);
    if p > u64::MAX as u128 {
        u64::MAX
    } else {
        p as u64
    }
}

pub fn sat_add(a: u64, b: u64) -> (r: u64)
    ensures
        r == wadd(a as int, b as int),
{
    if a <= u64::MAX - b {
        a + b
    } else {
        u64::MAX
    }
}

pub fn sat_scale_mul(a: u64, b: u64) -> (r: u64)
    ensures
        r == scale_mul(a as int, b as int),
{
    proof {
        lemma_u64_prod_fits(a as int, b as int);
    }
    let p: u128 = (a as u128) * (b as u128) / (SCALE as u128);
    if p > u64::MAX as u128 {
        u64::MAX
    } else {
        p as u64
    }
}

/// The product of two `u64` values fits in a `u128`.
pub proof fn lemma_u64_prod_fits(a: int, b: int)
    requires
        0 <= a <= u64::MAX,
        0 <= b <= u64::MAX,
    ensures
        0 <= a * b <= u128::MAX,
{
    assert(a * b <= u64::MAX * u64::MAX) by (nonlinear_arith)
        requires
            0 <= a <= u64::MAX,
            0 <= b <= u64::MAX,
    ;
    assert(0 <= a * b) by (nonlinear_arith)
        requires
            0 <= a,
            0 <= b,
    ;
}

/// The apportioned part never exceeds the whole.
pub proof fn lemma_mul_div_le(t: int, num: int, den: int)
    requires
        0 <= t,
        0 <= num <= den,
    ensures
        0 <= mul_div(t, num, den) <= t,
{
    if den > 0 {
        assert(t * num <= t * den) by (nonlinear_arith)
            requires
                0 <= t,
                num <= den,
        ;
        assert(0 <= t * num) by (nonlinear_arith)
            requires
                0 <= t,
                0 <= num,
        ;
        assert((t * num) / den <= (t * den) / den) by (nonlinear_arith)
            requires
                den > 0,
                t * num <= t * den,
        ;
        assert((t * den) / den == t) by (nonlinear_arith)
            requires
                den > 0,
        ;
        assert(0 <= (t * num) / den) by (nonlinear_arith)
            requires
                den > 0,
                0 <= t * num,
        ;
    }
}

/// Apportionment is monotone in the numerator.
pub proof fn lemma_mul_div_mono(t: int, num1: int, num2: int, den: int)
    requires
        0 <= t,
        0 <= num1 <= num2,
        0 <= den,
    ensures
        mul_div(t, num1, den) <= mul_div(t, num2, den),
{
    if den != 0 {
        assert(t * num1 <= t * num2) by (nonlinear_arith)
            requires
                0 <= t,
                num1 <= num2,
        ;
        assert((t * num1) / den <= (t * num2) / den) by (nonlinear_arith)
            requires
                den > 0,
                t * num1 <= t * num2,
        ;
    }
}

/// Apportioning the full denominator yields the whole.
pub proof fn lemma_mul_div_whole(t: int, den: int)
    requires
        0 <= t,
        0 < den,
    ensures
        mul_div(t, den, den) == t,
{
    assert((t * den) / den == t) by (nonlinear_arith)
        requires
            den > 0,
    ;
}

pub fn part_of(t: u64, num: u64, den: u64) -> (r: u64)
    requires
        num <= den,
        den > 0,
    ensures
        r == mul_div(t as int, num as int, den as int),
        r <= t,
{
    proof {
        lemma_u64_prod_fits(t as int, num as int);
        lemma_mul_div_le(t as int, num as int, den as int);
    }
    ((t as u128) * (num as u128) / (den as u128)) as u64
}

pub fn sat_ratio(s: u64, c: u64) -> (r: u64)
    ensures
        r == ratio_scaled(s as int, c as int),
{
    if c == 0 {
        0
    } else {
        proof {
            lemma_u64_prod_fits(s as int, SCALE as int);
        }
        let p: u128 = (s as u128) * (SCALE as u128) / (c as u128);
        if p > u64::MAX as u128 {
            u64::MAX
        } else {
            p as u64
        }
    }
}

} // verus!
