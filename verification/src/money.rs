//! Fixed-precision signed decimal amounts.
//!
//! An amount is a pair of a mantissa of at most 96 bits and a scale of at most
//! 28 fractional digits; its value is counted in units of 10^-28. Sums,
//! differences and comparisons are carried out by `rust_decimal`, which
//! rounds a result that it cannot hold. This module accepts a sum or a
//! difference only after it has found it exact, so that no balance is ever
//! rounded.

use rust_decimal::Decimal;
use vstd::arithmetic::div_mod::{
    lemma_div_multiples_vanish, lemma_div_multiples_vanish_quotient, lemma_div_nonincreasing,
    lemma_div_pos_is_pos, lemma_fundamental_div_mod,
};
use vstd::prelude::*;

verus! {

/// Largest number of fractional digits an amount can carry.
pub const MAX_SCALE: u32 = 28;

/// Largest magnitude of a mantissa: 2^96 - 1.
pub const MAX_MANTISSA: i128 = 79_228_162_514_264_337_593_543_950_335;

/// The value of the amount one: 10^28 units.
pub const ONE: i128 = 10_000_000_000_000_000_000_000_000_000;

/// Ten to the power `n`.
pub open spec fn pow10(n: nat) -> int
    decreases n,
{
    if n == 0 {
        1
    } else {
        10 * pow10((n - 1) as nat)
    }
}

/// Whether `m` is a mantissa that an amount can hold.
pub open spec fn in_range(m: int) -> bool {
    -MAX_MANTISSA <= m <= MAX_MANTISSA
}

/// The value, in units of 10^-28, of the mantissa `m` at `scale` fractional
/// digits.
pub open spec fn written(m: int, scale: nat) -> int {
    m * pow10((MAX_SCALE - scale) as nat)
}

/// Whether some amount has the value `v`: whether `v` can be written with a
/// mantissa in range at one of the scales.
pub open spec fn representable(v: int) -> bool {
    exists|m: int, scale: nat| in_range(m) && scale <= MAX_SCALE && #[trigger] written(m, scale) == v
}

/// A signed decimal `mantissa / 10^scale`.
#[derive(Clone, Copy, Debug)]
pub struct Money {
    mantissa: i128,
    scale: u32,
}

impl Money {
    /// The mantissa, as a mathematical integer.
    pub closed spec fn spec_mantissa(self) -> int {
        self.mantissa as int
    }

    /// The number of fractional digits.
    pub closed spec fn spec_scale(self) -> nat {
        self.scale as nat
    }

    /// The representation bounds that every amount obeys.
    #[verifier::type_invariant]
    pub open spec fn wf(self) -> bool {
        &&& in_range(self.spec_mantissa())
        &&& self.spec_scale() <= MAX_SCALE
    }

    /// The amount as a whole number of units of 10^-28. Two amounts are
    /// numerically equal exactly when their values are.
    pub open spec fn value(self) -> int {
        written(self.spec_mantissa(), self.spec_scale())
    }

    /// The value of every valid amount is representable.
    pub proof fn lemma_representable(self)
        requires
            self.wf(),
        ensures
            representable(self.value()),
    {
        assert(written(self.spec_mantissa(), self.spec_scale()) == self.value());
    }

    /// The amount zero, with no fractional digits.
    pub fn zero() -> (r: Money)
        ensures
            r.wf(),
            r.spec_mantissa() == 0,
            r.spec_scale() == 0,
            r.value() == 0,
    {
        Money { mantissa: 0, scale: 0 }
    }

    /// The amount `mantissa / 10^scale`, or `None` when the pair is outside
    /// the representable bounds.
    pub fn new(mantissa: i128, scale: u32) -> (r: Option<Money>)
        ensures
            r is Some <==> in_range(mantissa as int) && scale <= MAX_SCALE,
            r matches Some(m) ==> m.wf() && m.spec_mantissa() == mantissa && m.spec_scale()
                == scale,
    {
        if scale <= MAX_SCALE && -MAX_MANTISSA <= mantissa && mantissa <= MAX_MANTISSA {
            Some(Money { mantissa, scale })
        } else {
            None
        }
    }

    /// The mantissa.
    pub fn mantissa(&self) -> (r: i128)
        ensures
            r == self.spec_mantissa(),
            in_range(r as int),
    {
        proof {
            use_type_invariant(self);
        }
        self.mantissa
    }

    /// The number of fractional digits.
    pub fn scale(&self) -> (r: u32)
        ensures
            r == self.spec_scale(),
            r <= MAX_SCALE,
    {
        proof {
            use_type_invariant(self);
        }
        self.scale
    }
}

/// Zero is representable.
pub proof fn lemma_zero_representable()
    ensures
        representable(0),
{
    assert(written(0, 0) == 0);
}

/// A whole number of units of 10^-digits is representable as long as its
/// magnitude is within the largest mantissa at that many digits. With four
/// digits that is a magnitude of more than 7.9 * 10^24.
pub proof fn lemma_representable_within(m: int, digits: nat)
    requires
        digits <= MAX_SCALE,
        in_range(m),
    ensures
        representable(m * pow10((MAX_SCALE - digits) as nat)),
{
    assert(written(m, digits) == m * pow10((MAX_SCALE - digits) as nat));
}

/// Powers of ten multiply: `10^a * 10^b == 10^(a + b)`.
pub proof fn lemma_pow10_adds(a: nat, b: nat)
    ensures
        pow10(a) * pow10(b) == pow10(a + b),
    decreases a,
{
    if a > 0 {
        lemma_pow10_adds((a - 1) as nat, b);
        assert(pow10(a) * pow10(b) == 10 * (pow10((a - 1) as nat) * pow10(b))) by (nonlinear_arith)
            requires
                pow10(a) == 10 * pow10((a - 1) as nat),
        ;
    }
}

/// Powers of ten are positive and grow with the exponent.
pub proof fn lemma_pow10_grows(a: nat, b: nat)
    requires
        a <= b,
    ensures
        1 <= pow10(a) <= pow10(b),
    decreases b,
{
    if a < b {
        lemma_pow10_grows(a, (b - 1) as nat);
    } else if a > 0 {
        lemma_pow10_grows((a - 1) as nat, (a - 1) as nat);
    }
}

/// The largest power of ten in use, as a literal.
pub proof fn lemma_pow10_max()
    ensures
        pow10(MAX_SCALE as nat) == 10_000_000_000_000_000_000_000_000_000,
{
    reveal_with_fuel(pow10, 29);
}

/// `m / d` rounded toward zero, for a positive `d`.
pub open spec fn toward_zero(m: int, d: int) -> int {
    if m >= 0 {
        m / d
    } else {
        -((-m) / d)
    }
}

/// How many times, up to `steps`, the mantissa `m` can be multiplied by ten
/// and stay in range.
pub open spec fn room(m: int, steps: nat) -> nat
    decreases steps,
{
    if steps > 0 && in_range(m * 10) {
        1 + room(m * 10, (steps - 1) as nat)
    } else {
        0
    }
}

impl Money {
    /// The amount cut to `digits` fractional digits, without rounding. An
    /// amount with more digits loses the excess ones; zero takes the new
    /// scale; an amount with fewer digits is written with as many more, up
    /// to `digits`, as its mantissa has room for, and keeps its value.
    pub closed spec fn spec_trunc(self, digits: nat) -> Money {
        if self.scale == digits {
            self
        } else if self.mantissa == 0 {
            Money { mantissa: 0, scale: digits as u32 }
        } else if self.scale > digits {
            Money {
                mantissa: toward_zero(
                    self.mantissa as int,
                    pow10((self.scale - digits) as nat),
                ) as i128,
                scale: digits as u32,
            }
        } else {
            let gained = room(self.mantissa as int, (digits - self.scale) as nat);
            Money {
                mantissa: (self.mantissa * pow10(gained)) as i128,
                scale: (self.scale + gained) as u32,
            }
        }
    }

    /// Cutting an amount to `digits` fractional digits gives a valid amount
    /// of `digits` digits, or of as many as its mantissa has room for. Its
    /// value is the original value rounded toward zero to a whole number of
    /// units of 10^-digits.
    pub proof fn lemma_trunc(self, digits: nat)
        requires
            self.wf(),
            digits <= MAX_SCALE,
        ensures
            self.spec_trunc(digits).wf(),
            self.spec_trunc(digits).spec_scale() <= digits,
            self.spec_trunc(digits).spec_scale() == digits || !in_range(
                self.spec_trunc(digits).spec_mantissa() * 10,
            ),
            self.spec_trunc(digits).value() == toward_zero(
                self.value(),
                pow10((MAX_SCALE - digits) as nat),
            ) * pow10((MAX_SCALE - digits) as nat),
    {
        let cut = self.spec_trunc(digits);
        let unit = pow10((MAX_SCALE - digits) as nat);
        let m = self.mantissa as int;
        lemma_pow10_grows(0, (MAX_SCALE - digits) as nat);
        if self.scale > digits && m != 0 {
            let p = pow10((self.scale - digits) as nat);
            let q = pow10((MAX_SCALE - self.scale) as nat);
            lemma_pow10_grows(0, (self.scale - digits) as nat);
            lemma_pow10_grows(0, (MAX_SCALE - self.scale) as nat);
            lemma_pow10_adds((MAX_SCALE - self.scale) as nat, (self.scale - digits) as nat);
            assert(unit == q * p);
            if m >= 0 {
                lemma_div_multiples_vanish_quotient(q, m, p);
                lemma_div_nonincreasing(m, p);
                lemma_div_pos_is_pos(m, p);
                assert(m * q == q * m) by (nonlinear_arith);
            } else {
                lemma_div_multiples_vanish_quotient(q, -m, p);
                lemma_div_nonincreasing(-m, p);
                lemma_div_pos_is_pos(-m, p);
                assert(-(m * q) == q * (-m)) by (nonlinear_arith);
            }
        } else {
            let gained = if self.scale < digits && m != 0 {
                room(m, (digits - self.scale) as nat)
            } else {
                0
            };
            lemma_room(m, (digits - self.scale) as nat);
            assert(pow10(0) == 1);
            let up = pow10((digits - self.scale) as nat);
            lemma_pow10_adds((digits - self.scale) as nat, (MAX_SCALE - digits) as nat);
            if m == 0 {
                assert(cut.spec_mantissa() == 0);
                assert(cut.value() == 0 * pow10((MAX_SCALE - cut.spec_scale()) as nat));
            } else if self.scale < digits {
                let rest = (MAX_SCALE - self.scale - gained) as nat;
                lemma_pow10_adds(gained, rest);
                assert(gained + rest == MAX_SCALE - self.scale);
                assert(cut.spec_mantissa() == m * pow10(gained));
                assert(cut.spec_scale() == self.scale + gained);
                assert(m * pow10(gained) * pow10(rest) == m * (pow10(gained) * pow10(rest)))
                    by (nonlinear_arith);
            }
            assert(cut.value() == self.value());
            assert(self.value() == (m * up) * unit) by (nonlinear_arith)
                requires
                    self.value() == m * (up * unit),
            ;
            lemma_whole_units(m * up, unit);
        }
    }
}

/// A mantissa with room for `room(m, steps)` factors of ten is in range
/// after taking them, takes no more than `steps`, and takes fewer only if
/// it has no room for one more.
pub proof fn lemma_room(m: int, steps: nat)
    requires
        in_range(m),
    ensures
        room(m, steps) <= steps,
        in_range(m * pow10(room(m, steps))),
        room(m, steps) == steps || !in_range(m * pow10(room(m, steps)) * 10),
    decreases steps,
{
    if steps > 0 && in_range(m * 10) {
        lemma_room(m * 10, (steps - 1) as nat);
        let rest = room(m * 10, (steps - 1) as nat);
        assert(m * pow10(rest + 1) == (m * 10) * pow10(rest)) by (nonlinear_arith)
            requires
                pow10(rest + 1) == 10 * pow10(rest),
        ;
    } else {
        assert(pow10(0) == 1);
    }
}

/// A whole number of units is its own rounding toward zero.
pub proof fn lemma_whole_units(k: int, unit: int)
    requires
        unit > 0,
    ensures
        toward_zero(k * unit, unit) * unit == k * unit,
{
    if k >= 0 {
        lemma_div_multiples_vanish(k, unit);
        assert(k * unit == unit * k && k * unit >= 0) by (nonlinear_arith)
            requires
                k >= 0,
                unit > 0,
        ;
    } else {
        lemma_div_multiples_vanish(-k, unit);
        assert(-(k * unit) == unit * (-k) && k * unit < 0) by (nonlinear_arith)
            requires
                k < 0,
                unit > 0,
        ;
    }
}

/// `Decimal::checked_add` on the two amounts, which the crate documents as
/// the sum, or `None` on overflow. Where no amount has the exact sum as its
/// value the crate hands back a rounded one; the contract speaks of the
/// other sums only, and claims that those come back exact.
#[verifier::external_body]
fn decimal_add(a: Money, b: Money) -> (r: Option<Money>)
    requires
        a.wf(),
        b.wf(),
    ensures
        r matches Some(sum) ==> sum.wf(),
        representable(a.value() + b.value()) ==> r is Some && r->0.value() == a.value()
            + b.value(),
{
    let x = Decimal::from_i128_with_scale(a.mantissa, a.scale);
    let y = Decimal::from_i128_with_scale(b.mantissa, b.scale);
    match x.checked_add(y) {
        Some(d) => Some(Money { mantissa: d.mantissa(), scale: d.scale() }),
        None => None,
    }
}

/// `Decimal::checked_sub` on the two amounts: as `decimal_add`, for the
/// difference.
#[verifier::external_body]
fn decimal_sub(a: Money, b: Money) -> (r: Option<Money>)
    requires
        a.wf(),
        b.wf(),
    ensures
        r matches Some(difference) ==> difference.wf(),
        representable(a.value() - b.value()) ==> r is Some && r->0.value() == a.value()
            - b.value(),
{
    let x = Decimal::from_i128_with_scale(a.mantissa, a.scale);
    let y = Decimal::from_i128_with_scale(b.mantissa, b.scale);
    match x.checked_sub(y) {
        Some(d) => Some(Money { mantissa: d.mantissa(), scale: d.scale() }),
        None => None,
    }
}

/// `Decimal`'s `<`, which orders amounts by their numeric value whatever
/// their scales.
#[verifier::external_body]
fn decimal_lt(a: Money, b: Money) -> (r: bool)
    requires
        a.wf(),
        b.wf(),
    ensures
        r == (a.value() < b.value()),
{
    Decimal::from_i128_with_scale(a.mantissa, a.scale) < Decimal::from_i128_with_scale(
        b.mantissa,
        b.scale,
    )
}

/// `Decimal::trunc_with_scale`: drops the digits beyond `scale` without
/// rounding; sets a zero to the new scale; and writes an amount of fewer
/// digits with as many more factors of ten as fit in 96 bits, up to the new
/// scale.
#[verifier::external_body]
fn decimal_trunc(a: Money, scale: u32) -> (r: Money)
    requires
        a.wf(),
        scale <= MAX_SCALE,
    ensures
        r == a.spec_trunc(scale as nat),
{
    let d = Decimal::from_i128_with_scale(a.mantissa, a.scale).trunc_with_scale(scale);
    Money { mantissa: d.mantissa(), scale: d.scale() }
}

/// Ten to the power `digits`.
fn power_of_ten(digits: u32) -> (r: i128)
    requires
        digits <= MAX_SCALE,
    ensures
        r == pow10(digits as nat),
        1 <= r <= 10_000_000_000_000_000_000_000_000_000,
{
    let mut r: i128 = 1;
    let mut i: u32 = 0;
    proof {
        lemma_pow10_max();
    }
    while i < digits
        invariant
            i <= digits <= MAX_SCALE,
            r == pow10(i as nat),
            pow10(MAX_SCALE as nat) == 10_000_000_000_000_000_000_000_000_000,
        decreases digits - i,
    {
        proof {
            lemma_pow10_grows((i + 1) as nat, MAX_SCALE as nat);
        }
        r = r * 10;
        i = i + 1;
    }
    proof {
        lemma_pow10_grows(digits as nat, MAX_SCALE as nat);
    }
    r
}

impl Money {
    /// The value split at the amount one: `whole` ones and `part` units,
    /// with `0 <= part < ONE`.
    fn split(self) -> (r: (i128, i128))
        ensures
            r.0 * ONE + r.1 == self.value(),
            0 <= r.1 < ONE,
            -MAX_MANTISSA - 1 <= r.0 <= MAX_MANTISSA,
    {
        proof {
            use_type_invariant(self);
            lemma_pow10_max();
            lemma_pow10_adds(self.scale as nat, (MAX_SCALE - self.scale) as nat);
        }
        let below: u128 = power_of_ten(self.scale) as u128;
        let above: u128 = power_of_ten(MAX_SCALE - self.scale) as u128;
        let magnitude: u128 = if self.mantissa < 0 {
            (-self.mantissa) as u128
        } else {
            self.mantissa as u128
        };
        let whole: u128 = magnitude / below;
        let rest: u128 = magnitude % below;
        proof {
            lemma_fundamental_div_mod(magnitude as int, below as int);
            lemma_div_nonincreasing(magnitude as int, below as int);
            assert(rest * above < ONE && magnitude * above == whole * ONE + rest * above)
                by (nonlinear_arith)
                requires
                    magnitude == below * whole + rest,
                    0 <= rest < below,
                    below * above == ONE,
                    above >= 1,
            ;
            assert((-(magnitude as int)) * above == -(magnitude * above)) by (nonlinear_arith);
        }
        let part: u128 = rest * above;
        if self.mantissa >= 0 {
            (whole as i128, part as i128)
        } else if part == 0 {
            (-(whole as i128), 0)
        } else {
            (-(whole as i128) - 1, ONE - part as i128)
        }
    }

    /// Whether the value of `self` is the sum of the values of `a` and `b`.
    fn is_sum(self, a: Money, b: Money) -> (r: bool)
        ensures
            r == (self.value() == a.value() + b.value()),
    {
        let (whole, part) = self.split();
        let (a_whole, a_part) = a.split();
        let (b_whole, b_part) = b.split();
        let parts: i128 = a_part + b_part;
        if parts >= ONE {
            whole == a_whole + b_whole + 1 && part == parts - ONE
        } else {
            whole == a_whole + b_whole && part == parts
        }
    }

    /// The exact sum of the two amounts, or `None` where no amount has that
    /// value.
    pub fn checked_add(self, rhs: Money) -> (r: Option<Money>)
        ensures
            r is Some <==> representable(self.value() + rhs.value()),
            r matches Some(sum) ==> sum.wf() && sum.value() == self.value() + rhs.value(),
    {
        proof {
            use_type_invariant(self);
            use_type_invariant(rhs);
        }
        match decimal_add(self, rhs) {
            Some(sum) => {
                if sum.is_sum(self, rhs) {
                    proof {
                        sum.lemma_representable();
                    }
                    Some(sum)
                } else {
                    None
                }
            },
            None => None,
        }
    }

    /// The exact difference of the two amounts, or `None` where no amount
    /// has that value.
    pub fn checked_sub(self, rhs: Money) -> (r: Option<Money>)
        ensures
            r is Some <==> representable(self.value() - rhs.value()),
            r matches Some(difference) ==> difference.wf() && difference.value() == self.value()
                - rhs.value(),
    {
        proof {
            use_type_invariant(self);
            use_type_invariant(rhs);
        }
        match decimal_sub(self, rhs) {
            Some(difference) => {
                if self.is_sum(difference, rhs) {
                    proof {
                        difference.lemma_representable();
                    }
                    Some(difference)
                } else {
                    None
                }
            },
            None => None,
        }
    }

    /// Whether `self` is numerically smaller than `rhs`.
    pub fn lt(self, rhs: Money) -> (r: bool)
        ensures
            r == (self.value() < rhs.value()),
    {
        proof {
            use_type_invariant(self);
            use_type_invariant(rhs);
        }
        decimal_lt(self, rhs)
    }

    /// Whether `self` is numerically at least `rhs`.
    pub fn ge(self, rhs: Money) -> (r: bool)
        ensures
            r == (self.value() >= rhs.value()),
    {
        !self.lt(rhs)
    }

    /// Whether the amount is greater than zero.
    pub fn is_positive(self) -> (r: bool)
        ensures
            r == (self.value() > 0),
    {
        Money::zero().lt(self)
    }


    /// The amount cut to `scale` fractional digits, without rounding.
    pub fn trunc_with_scale(self, scale: u32) -> (r: Money)
        requires
            scale <= MAX_SCALE,
        ensures
            r == self.spec_trunc(scale as nat),
            r.wf(),
            r.spec_scale() <= scale,
            r.spec_scale() == scale || !in_range(r.spec_mantissa() * 10),
            r.value() == toward_zero(self.value(), pow10((MAX_SCALE - scale) as nat)) * pow10(
                (MAX_SCALE - scale) as nat,
            ),
    {
        proof {
            use_type_invariant(self);
            self.lemma_trunc(scale as nat);
        }
        decimal_trunc(self, scale)
    }
}

/// Amounts are equal when they are numerically equal, whatever their scales.
impl PartialEq for Money {
    fn eq(&self, other: &Money) -> (r: bool) {
        !self.lt(*other) && !other.lt(*self)
    }
}

impl Eq for Money {}

impl vstd::std_specs::cmp::PartialEqSpecImpl for Money {
    open spec fn obeys_eq_spec() -> bool {
        true
    }

    open spec fn eq_spec(&self, other: &Money) -> bool {
        self.value() == other.value()
    }
}

} // verus!
