use toy_payment_engine::money::MAX_MANTISSA;
use toy_payment_engine::Money;

struct Sweep {
    state: u64,
}

impl Sweep {
    fn next(&mut self) -> u64 {
        self.state = self
            .state
            .wrapping_mul(6364136223846793005)
            .wrapping_add(1442695040888963407);
        self.state >> 11
    }

    fn amount(&mut self) -> Money {
        let bits = self.next() % 97;
        let wide = ((self.next() as u128) << 64) | ((self.next() as u128) << 11) | 1;
        let mut magnitude = if bits == 0 { 0 } else { (wide >> (128 - bits)) as i128 };
        if self.next() % 3 == 0 {
            let zeros = pow10((self.next() % 20) as u32);
            magnitude = magnitude / zeros * zeros;
        }
        let mantissa = if self.next() % 2 == 0 { magnitude } else { -magnitude };
        let scale = match self.next() % 4 {
            0 => 0,
            1 => 4,
            _ => (self.next() % 29) as u32,
        };
        Money::new(mantissa, scale).unwrap()
    }
}

fn pow10(digits: u32) -> i128 {
    let mut r: i128 = 1;
    for _ in 0..digits {
        r *= 10;
    }
    r
}

const ONE: i128 = 10_000_000_000_000_000_000_000_000_000;

/// A value in units of 10^-28, as `whole * ONE + part` with `0 <= part < ONE`.
type Value = (i128, i128);

fn value(mantissa: i128, scale: u32) -> Value {
    let below = pow10(scale);
    (mantissa.div_euclid(below), mantissa.rem_euclid(below) * pow10(28 - scale))
}

fn value_of(m: Money) -> Value {
    value(m.mantissa(), m.scale())
}

fn negated(v: Value) -> Value {
    if v.1 == 0 {
        (-v.0, 0)
    } else {
        (-v.0 - 1, ONE - v.1)
    }
}

fn sum(x: Value, y: Value) -> Value {
    let part = x.1 + y.1;
    if part >= ONE {
        (x.0 + y.0 + 1, part - ONE)
    } else {
        (x.0 + y.0, part)
    }
}

/// Whether some mantissa in range, at some scale, has the value.
fn representable(v: Value) -> bool {
    (0..=28).any(|scale| {
        let unit = pow10(28 - scale);
        v.1 % unit == 0
            && v.0
                .checked_mul(pow10(scale))
                .and_then(|m| m.checked_add(v.1 / unit))
                .is_some_and(|m| -MAX_MANTISSA <= m && m <= MAX_MANTISSA)
    })
}

/// The pair's mantissas at the larger scale, unless one leaves `i128`.
fn aligned(a: Money, b: Money) -> Option<(i128, i128, u32)> {
    let scale = a.scale().max(b.scale());
    let x = a.mantissa().checked_mul(pow10(scale - a.scale()))?;
    let y = b.mantissa().checked_mul(pow10(scale - b.scale()))?;
    Some((x, y, scale))
}

fn in_range(m: i128) -> Option<i128> {
    if -MAX_MANTISSA <= m && m <= MAX_MANTISSA {
        Some(m)
    } else {
        None
    }
}

#[test]
fn sums_are_exact_or_refused() {
    let mut sweep = Sweep { state: 1 };
    let mut formed = 0;
    let mut rescaled = 0;
    let mut refused = 0;
    for _ in 0..300_000 {
        let a = sweep.amount();
        let b = sweep.amount();
        let exact = sum(value_of(a), value_of(b));
        match a.checked_add(b) {
            Some(r) => {
                assert_eq!(value_of(r), exact);
                formed += 1;
                if r.scale() != a.scale().max(b.scale()) {
                    rescaled += 1;
                }
            }
            None => {
                assert!(!representable(exact), "{a:?} + {b:?}");
                refused += 1;
            }
        }
    }
    assert!(formed > 10_000);
    assert!(rescaled > 1_000);
    assert!(refused > 10_000);
}

#[test]
fn differences_are_exact_or_refused() {
    let mut sweep = Sweep { state: 2 };
    let mut formed = 0;
    let mut refused = 0;
    for _ in 0..300_000 {
        let a = sweep.amount();
        let b = sweep.amount();
        let exact = sum(value_of(a), negated(value_of(b)));
        match a.checked_sub(b) {
            Some(r) => {
                assert_eq!(value_of(r), exact);
                formed += 1;
            }
            None => {
                assert!(!representable(exact), "{a:?} - {b:?}");
                refused += 1;
            }
        }
    }
    assert!(formed > 10_000);
    assert!(refused > 10_000);
}

#[test]
fn sums_near_the_largest_mantissa() {
    let mut sweep = Sweep { state: 5 };
    let mut formed = 0;
    let mut refused = 0;
    for _ in 0..300_000 {
        let near = MAX_MANTISSA - (sweep.next() % 1000) as i128 * pow10((sweep.next() % 4) as u32);
        let scale = (sweep.next() % 29) as u32;
        let a = Money::new(if sweep.next() % 2 == 0 { near } else { -near }, scale).unwrap();
        let b = sweep.amount();
        let exact = sum(value_of(a), value_of(b));
        match a.checked_add(b) {
            Some(r) => {
                assert_eq!(value_of(r), exact);
                formed += 1;
            }
            None => {
                assert!(!representable(exact), "{a:?} + {b:?}");
                refused += 1;
            }
        }
    }
    assert!(formed > 10_000);
    assert!(refused > 10_000);
}

#[test]
fn order_agrees_with_aligned_mantissas() {
    let mut sweep = Sweep { state: 3 };
    let mut told = 0;
    for _ in 0..200_000 {
        let a = sweep.amount();
        let b = sweep.amount();
        if let Some((x, y, _)) = aligned(a, b) {
            assert_eq!(a.lt(b), x < y);
            assert_eq!(a.ge(b), x >= y);
            assert_eq!(a == b, x == y);
            told += 1;
        }
    }
    assert!(told > 10_000);
}

#[test]
fn truncation_agrees_with_integer_division() {
    let mut sweep = Sweep { state: 4 };
    for _ in 0..200_000 {
        let a = sweep.amount();
        let digits = (sweep.next() % 29) as u32;
        let cut = a.trunc_with_scale(digits);
        let expected = if a.scale() == digits {
            (a.mantissa(), a.scale())
        } else if a.mantissa() == 0 {
            (0, digits)
        } else if a.scale() > digits {
            (a.mantissa() / pow10(a.scale() - digits), digits)
        } else {
            let mut m = a.mantissa();
            let mut scale = a.scale();
            while scale < digits && in_range(m * 10).is_some() {
                m *= 10;
                scale += 1;
            }
            (m, scale)
        };
        assert_eq!((cut.mantissa(), cut.scale()), expected);
    }
}
