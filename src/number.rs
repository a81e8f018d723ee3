use vstd::prelude::*;

verus! {

/// Fractional digits carried by a [`Number`].
pub const FRACTION_DIGITS: u32 = 9;

/// Units in one whole: a [`Number`] holding `units` stands for
/// `units / UNITS_PER_ONE`.
pub const UNITS_PER_ONE: i128 = 1_000_000_000;

/// A signed fixed-point decimal with nine fractional digits.
///
/// Metric values, sums and bucket bounds are held in this form. Addition
/// and subtraction wrap around on overflow, as the counts of a metric do:
/// nothing guards them, and `(a + b) - b == a` holds exactly.
#[derive(Clone, Copy, Debug, PartialEq, Eq, Structural)]
pub struct Number {
    pub units: i128,
}

/// Ten raised to `e`.
pub open spec fn pow10(e: nat) -> int
    decreases e,
{
    if e == 0 {
        1
    } else {
        10 * pow10((e - 1) as nat)
    }
}

impl Number {
    /// The sum of two numbers, wrapping on overflow.
    pub open spec fn spec_plus(self, other: Number) -> Number {
        Number { units: self.units.wrapping_add(other.units) }
    }

    /// The difference of two numbers, wrapping on overflow.
    pub open spec fn spec_minus(self, other: Number) -> Number {
        Number { units: self.units.wrapping_sub(other.units) }
    }

    /// The zero value.
    pub fn zero() -> (r: Number)
        ensures
            r.units == 0,
    {
        Number { units: 0 }
    }

    /// The number whose raw representation is `units`.
    pub fn from_units(units: i128) -> (r: Number)
        ensures
            r.units == units,
    {
        Number { units }
    }

    /// The whole number `n`.
    pub fn from_int(n: i64) -> (r: Number)
        ensures
            r.units == n * UNITS_PER_ONE,
    {
        Number { units: n as i128 * UNITS_PER_ONE }
    }

    /// The decimal `mantissa * 10^-scale`, for instance `decimal(123, 2)`
    /// for `1.23`.
    pub fn decimal(mantissa: i64, scale: u32) -> (r: Number)
        requires
            scale <= FRACTION_DIGITS,
        ensures
            r.units * pow10(scale as nat) == mantissa * UNITS_PER_ONE,
    {
        let mut factor: i128 = 1;
        let mut k: u32 = scale;
        while k < FRACTION_DIGITS
            invariant
                scale <= k <= FRACTION_DIGITS,
                factor == pow10((k - scale) as nat),
                1 <= factor <= pow10((k - scale) as nat),
            decreases FRACTION_DIGITS - k,
        {
            proof {
                lemma_pow10_bound((k - scale) as nat, 8);
                reveal_with_fuel(pow10, 9);
                assert(pow10(8) == 100_000_000);
            }
            factor = factor * 10;
            k = k + 1;
            assert(factor == pow10((k - scale) as nat));
        }
        proof {
            lemma_pow10_bound((FRACTION_DIGITS - scale) as nat, 9);
            lemma_pow10_split((FRACTION_DIGITS - scale) as nat, scale as nat);
            reveal_with_fuel(pow10, 10);
            assert(pow10(9) == 1_000_000_000);
            assert(-9_223_372_036_854_775_808 <= mantissa <= 9_223_372_036_854_775_807);
            assert(mantissa * factor <= 9_223_372_036_854_775_807 * 1_000_000_000) by (nonlinear_arith)
                requires
                    -9_223_372_036_854_775_808 <= mantissa <= 9_223_372_036_854_775_807,
                    1 <= factor <= 1_000_000_000,
            ;
            assert(mantissa * factor >= -9_223_372_036_854_775_808 * 1_000_000_000) by (nonlinear_arith)
                requires
                    -9_223_372_036_854_775_808 <= mantissa <= 9_223_372_036_854_775_807,
                    1 <= factor <= 1_000_000_000,
            ;
            assert((mantissa * factor) * pow10(scale as nat) == mantissa * (factor * pow10(scale as nat)))
                by (nonlinear_arith);
        }
        Number { units: mantissa as i128 * factor }
    }

    /// `self + other`, wrapping on overflow.
    pub fn plus(self, other: Number) -> (r: Number)
        ensures
            r == self.spec_plus(other),
    {
        Number { units: self.units.wrapping_add(other.units) }
    }

    /// `self - other`, wrapping on overflow.
    pub fn minus(self, other: Number) -> (r: Number)
        ensures
            r == self.spec_minus(other),
    {
        Number { units: self.units.wrapping_sub(other.units) }
    }
}

/// `10^e` grows with `e` and stays positive.
pub proof fn lemma_pow10_bound(e: nat, limit: nat)
    requires
        e <= limit,
    ensures
        1 <= pow10(e) <= pow10(limit),
    decreases limit,
{
    if e < limit {
        lemma_pow10_bound(e, (limit - 1) as nat);
    }
    if limit > 0 {
        lemma_pow10_bound((limit - 1) as nat, (limit - 1) as nat);
    }
}

/// `10^(a + b) == 10^a * 10^b`.
pub proof fn lemma_pow10_split(a: nat, b: nat)
    ensures
        pow10(a + b) == pow10(a) * pow10(b),
    decreases a,
{
    if a > 0 {
        lemma_pow10_split((a - 1) as nat, b);
        assert(pow10(a + b) == 10 * pow10((a - 1 + b) as nat));
        assert(10 * (pow10((a - 1) as nat) * pow10(b)) == (10 * pow10((a - 1) as nat)) * pow10(b))
            by (nonlinear_arith);
    }
}

/// Subtracting what was added gives the starting number back.
pub proof fn lemma_plus_minus(a: Number, b: Number)
    ensures
        a.spec_plus(b).spec_minus(b) == a,
{
}

} // verus!
