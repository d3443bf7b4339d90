//! Scale-tagged unsigned fixed-point decimal arithmetic.
//!
//! A [`Decimal`] holds an integer `val` and a `scale`: the value represented
//! is `val / 10^scale`. Every operation is checked: overflow, underflow and
//! division by zero surface as [`MyError::NumericalOverflow`], and adding or
//! subtracting numbers of different scales as [`MyError::DifferentScale`];
//! nothing ever wraps silently.

use vstd::prelude::*;
use vstd::arithmetic::power::{
    pow,
    lemma_pow0,
    lemma_pow1,
    lemma_pow_adds,
    lemma_pow_multiplies,
    lemma_square_is_pow2,
};
use vstd::arithmetic::div_mod::{
    lemma_div_is_ordered,
    lemma_div_multiples_vanish,
    lemma_div_multiples_vanish_fancy,
    lemma_div_pos_is_pos,
    lemma_fundamental_div_mod,
    lemma_mod_bound,
};
use vstd::arithmetic::mul::{lemma_mul_inequality, lemma_mul_nonnegative};

verus! {

/// Largest scale whose power of ten still fits in a `u128`.
pub const MAX_SCALE: u8 = 38;

/// Euler's number to fifteen significant decimal digits, as a magnitude
/// at scale 15.
pub const EULER_VAL: u128 = 2718281828459045;

/// Error kinds of the auction core. Arithmetic-contract violations
/// (`NumericalOverflow`, `DifferentScale`) are fatal to the enclosing
/// operation; the rest are guard and authorization failures of the
/// auction flows.
#[derive(Clone, Copy, Debug, PartialEq, Eq, Structural)]
pub enum MyError {
    DifferentScale,
    NumericalOverflow,
    AuctionNotStarted,
    AuctionEnded,
    AuctionActive,
    InvalidAuctioneer,
    PublicKeyMismatch,
    BumpSeedMismatch,
    NoAuctioneerProgramSet,
    MetadataMismatch,
}

/// `10^s`, the denominator belonging to scale `s`.
pub open spec fn pow10(s: nat) -> nat
    decreases s,
{
    if s == 0 {
        1
    } else {
        10 * pow10((s - 1) as nat)
    }
}

pub proof fn lemma_pow10_pos(s: nat)
    ensures
        pow10(s) >= 1,
    decreases s,
{
    if s > 0 {
        lemma_pow10_pos((s - 1) as nat);
    }
}

pub proof fn lemma_pow10_mono(s1: nat, s2: nat)
    requires
        s1 <= s2,
    ensures
        pow10(s1) <= pow10(s2),
    decreases s2,
{
    if s1 < s2 {
        lemma_pow10_mono(s1, (s2 - 1) as nat);
        lemma_pow10_pos((s2 - 1) as nat);
    }
}

/// `pow10` agrees with the mathematical power function.
pub proof fn lemma_pow10_is_pow(s: nat)
    ensures
        pow10(s) == pow(10, s),
    decreases s,
{
    reveal(pow);
    if s > 0 {
        lemma_pow10_is_pow((s - 1) as nat);
    }
}

/// `10^(a+b) == 10^a * 10^b`.
pub proof fn lemma_pow10_adds(a: nat, b: nat)
    ensures
        pow10(a + b) == pow10(a) * pow10(b),
{
    lemma_pow10_is_pow(a);
    lemma_pow10_is_pow(b);
    lemma_pow10_is_pow(a + b);
    lemma_pow_adds(10, a, b);
}

pub proof fn lemma_pow10_fits_u128(s: nat)
    requires
        s <= 38,
    ensures
        pow10(s) <= u128::MAX,
{
    lemma_pow10_mono(s, 38);
    assert(pow10(19) == 10000000000000000000) by {
        reveal_with_fuel(pow10, 20);
    }
    lemma_pow10_adds(19, 19);
    assert(pow10(38) == 100000000000000000000000000000000000000);
}

/// One floor-rounded fixed-point multiplication step:
/// `(a * b) / den` on magnitudes sharing the denominator `den`.
pub open spec fn dmul(a: nat, b: nat, den: nat) -> nat {
    (a * b) / den
}

/// Whether every intermediate product of the square-and-multiply loop
/// stays representable, walking the exponent bit by bit from the least
/// significant end: `result` is the accumulator, `base` the running square.
pub open spec fn pow_acc_ok(result: nat, base: nat, den: nat, exp: nat) -> bool
    decreases exp,
{
    if exp == 0 {
        true
    } else {
        &&& (exp % 2 == 1 ==> result * base <= u128::MAX)
        &&& base * base <= u128::MAX
        &&& pow_acc_ok(
            if exp % 2 == 1 {
                dmul(result, base, den)
            } else {
                result
            },
            dmul(base, base, den),
            den,
            exp / 2,
        )
    }
}

/// The magnitude the square-and-multiply loop computes: starting from
/// `result`, each set exponent bit folds the running square in with one
/// floor-rounded multiplication.
pub open spec fn pow_acc_val(result: nat, base: nat, den: nat, exp: nat) -> nat
    decreases exp,
{
    if exp == 0 {
        result
    } else {
        pow_acc_val(
            if exp % 2 == 1 {
                dmul(result, base, den)
            } else {
                result
            },
            dmul(base, base, den),
            den,
            exp / 2,
        )
    }
}

/// One floor-rounded multiplication never exceeds the exact product,
/// and is monotone in both magnitudes.
pub proof fn lemma_dmul_mono(a: nat, b: nat, a2: nat, b2: nat, den: nat)
    requires
        den >= 1,
        a <= a2,
        b <= b2,
    ensures
        dmul(a, b, den) <= dmul(a2, b2, den),
{
    lemma_mul_inequality(a as int, a2 as int, b as int);
    lemma_mul_inequality(b as int, b2 as int, a2 as int);
    lemma_div_is_ordered((a * b) as int, (a2 * b2) as int, den as int);
}

/// Multiplying by a magnitude at or above the denominator (a factor of at
/// least one) never shrinks the other magnitude, floors included.
pub proof fn lemma_dmul_grows(a: nat, b: nat, den: nat)
    requires
        den >= 1,
        b >= den,
    ensures
        dmul(a, b, den) >= a,
{
    lemma_mul_inequality(den as int, b as int, a as int);
    lemma_div_is_ordered((a * den) as int, (a * b) as int, den as int);
    lemma_div_multiples_vanish(a as int, den as int);
}

/// The multiplicative identity absorbs: `dmul(den, b, den) == b` exactly.
pub proof fn lemma_dmul_one(b: nat, den: nat)
    requires
        den >= 1,
    ensures
        dmul(den, b, den) == b,
{
    lemma_div_multiples_vanish(b as int, den as int);
}

/// While every product stays representable, so does the accumulator.
pub proof fn lemma_pow_acc_val_bound(r: nat, b: nat, den: nat, e: nat)
    requires
        den >= 1,
        r <= u128::MAX,
        pow_acc_ok(r, b, den, e),
    ensures
        pow_acc_val(r, b, den, e) <= u128::MAX,
    decreases e,
{
    if e > 0 {
        let rn = if e % 2 == 1 {
            dmul(r, b, den)
        } else {
            r
        };
        if e % 2 == 1 {
            lemma_div_is_ordered(0, (r * b) as int, den as int);
            assert((r * b) as int / (den as int) <= (r * b) as int) by (nonlinear_arith)
                requires
                    den >= 1,
            ;
        }
        lemma_pow_acc_val_bound(rn, dmul(b, b, den), den, e / 2);
    }
}

/// At scale zero the denominator is one, no rounding happens, and the
/// square-and-multiply loop computes the exact integer power.
pub proof fn lemma_pow_acc_exact(r: nat, b: nat, e: nat)
    ensures
        pow_acc_val(r, b, 1, e) == r * pow(b as int, e),
    decreases e,
{
    reveal(pow);
    if e == 0 {
        lemma_pow0(b as int);
    } else {
        let rn = if e % 2 == 1 {
            dmul(r, b, 1)
        } else {
            r
        };
        let b2 = dmul(b, b, 1);
        assert(dmul(r, b, 1) == r * b);
        assert(b2 == b * b);
        lemma_pow_acc_exact(rn, b2, e / 2);
        lemma_square_is_pow2(b as int);
        lemma_pow_multiplies(b as int, 2, e / 2);
        assert(pow(b2 as int, e / 2) == pow(b as int, 2 * (e / 2)));
        if e % 2 == 1 {
            lemma_pow_adds(b as int, 1, (e - 1) as nat);
            lemma_pow1(b as int);
            assert((r * b) * pow(b as int, (e - 1) as nat) == r * (b * pow(
                b as int,
                (e - 1) as nat,
            ))) by (nonlinear_arith);
        }
    }
}

/// The accumulator value is monotone in its starting point.
pub proof fn lemma_pow_acc_mono_r(r1: nat, r2: nat, b: nat, den: nat, e: nat)
    requires
        den >= 1,
        r1 <= r2,
    ensures
        pow_acc_val(r1, b, den, e) <= pow_acc_val(r2, b, den, e),
    decreases e,
{
    if e > 0 {
        if e % 2 == 1 {
            lemma_dmul_mono(r1, b, r2, b, den);
        }
        let r1n = if e % 2 == 1 {
            dmul(r1, b, den)
        } else {
            r1
        };
        let r2n = if e % 2 == 1 {
            dmul(r2, b, den)
        } else {
            r2
        };
        lemma_pow_acc_mono_r(r1n, r2n, dmul(b, b, den), den, e / 2);
    }
}

/// Bridging step for exponent monotonicity: a run that starts one floored
/// factor ahead never overtakes the run given one more exponent step.
proof fn lemma_pow_acc_step_up(s: nat, b: nat, den: nat, f: nat)
    requires
        den >= 1,
        b >= den,
        den <= s,
        s <= b,
    ensures
        pow_acc_val(s, b, den, f) <= pow_acc_val(den, b, den, f + 1),
    decreases f,
{
    reveal_with_fuel(pow_acc_val, 3);
    let b2 = dmul(b, b, den);
    lemma_dmul_grows(b, b, den);
    lemma_dmul_one(b, den);
    if f == 0 {
        // one multiplication by the base recovers the base exactly
    } else if f % 2 == 0 {
        let g = f / 2;
        assert((f + 1) % 2 == 1 && (f + 1) / 2 == g);
        lemma_pow_acc_mono_r(s, b, b2, den, g);
    } else {
        let g = f / 2;
        assert((f + 1) % 2 == 0 && (f + 1) / 2 == g + 1);
        lemma_dmul_grows(s, b, den);
        lemma_dmul_mono(s, b, b, b, den);
        lemma_pow_acc_step_up(dmul(s, b, den), b2, den, g);
    }
}

/// The fixed-point power is monotone in the exponent, floor rounding and
/// all, whenever the base is at least the multiplicative identity.
pub proof fn lemma_pow_acc_mono_e(b: nat, den: nat, e1: nat, e2: nat)
    requires
        den >= 1,
        b >= den,
        e1 <= e2,
    ensures
        pow_acc_val(den, b, den, e1) <= pow_acc_val(den, b, den, e2),
    decreases e2,
{
    let b2 = dmul(b, b, den);
    lemma_dmul_grows(b, b, den);
    lemma_dmul_one(b, den);
    if e1 == e2 || e2 == 0 {
        // nothing to relate
    } else {
        let f1 = e1 / 2;
        let f2 = e2 / 2;
        if e1 % 2 == 0 && e2 % 2 == 0 {
            lemma_pow_acc_mono_e(b2, den, f1, f2);
        } else if e1 % 2 == 1 && e2 % 2 == 1 {
            if f1 < f2 {
                lemma_pow_acc_step_up(b, b2, den, f1);
                lemma_pow_acc_mono_e(b2, den, f1 + 1, f2);
                lemma_pow_acc_mono_r(den, b, b2, den, f2);
            }
        } else if e1 % 2 == 0 {
            lemma_pow_acc_mono_e(b2, den, f1, f2);
            lemma_pow_acc_mono_r(den, b, b2, den, f2);
        } else {
            lemma_pow_acc_step_up(b, b2, den, f1);
            lemma_pow_acc_mono_e(b2, den, f1 + 1, f2);
        }
    }
}

/// The ceiling division `(x + d - 1) / d` never falls below the exact
/// quotient, and exceeds it by less than one: `c*d >= x > (c-1)*d`.
pub proof fn lemma_ceil_div_bounds(x: int, d: int)
    requires
        x >= 0,
        d >= 1,
    ensures
        ((x + d - 1) / d) * d >= x,
        ((x + d - 1) / d - 1) * d < x,
{
    let c = (x + d - 1) / d;
    lemma_fundamental_div_mod(x + d - 1, d);
    lemma_mod_bound(x + d - 1, d);
    assert(d * c == x + d - 1 - ((x + d - 1) % d));
    assert(d * c >= x);
    assert(d * c < x + d);
    assert((c - 1) * d == d * c - d) by (nonlinear_arith);
    assert(c * d == d * c) by (nonlinear_arith);
}

/// Ceiling division is monotone in the numerator.
pub proof fn lemma_ceil_div_mono_numerator(x1: int, x2: int, d: int)
    requires
        0 <= x1 <= x2,
        d >= 1,
    ensures
        (x1 + d - 1) / d <= (x2 + d - 1) / d,
{
    lemma_div_is_ordered(x1 + d - 1, x2 + d - 1, d);
}

/// Ceiling division is non-increasing in the denominator.
pub proof fn lemma_ceil_div_mono_denominator(x: int, d1: int, d2: int)
    requires
        x >= 0,
        1 <= d1 <= d2,
    ensures
        (x + d2 - 1) / d2 <= (x + d1 - 1) / d1,
{
    let c1 = (x + d1 - 1) / d1;
    lemma_ceil_div_bounds(x, d1);
    lemma_div_pos_is_pos(x + d1 - 1, d1);
    assert(c1 * d1 >= x);
    lemma_mul_inequality(d1, d2, c1);
    assert(c1 * d1 == d1 * c1) by (nonlinear_arith);
    assert(c1 * d2 == d2 * c1) by (nonlinear_arith);
    assert(c1 * d2 >= x);
    lemma_div_is_ordered(x + d2 - 1, c1 * d2 + d2 - 1, d2);
    lemma_div_multiples_vanish_fancy(c1, d2 - 1, d2);
    assert((d2 * c1 + (d2 - 1)) / d2 == c1);
    assert(c1 * d2 + d2 - 1 == d2 * c1 + (d2 - 1)) by (nonlinear_arith);
}

/// An exact unsigned fixed-point number: `val / 10^scale`.
#[derive(Clone, Copy, Debug, PartialEq, Eq, Structural)]
pub struct Decimal {
    pub val: u128,
    pub scale: u8,
}

/// `10^s`, computed at run time.
fn pow10_u128(s: u8) -> (r: u128)
    requires
        s <= MAX_SCALE,
    ensures
        r == pow10(s as nat),
{
    let mut r: u128 = 1;
    let mut i: u8 = 0;
    while i < s
        invariant
            i <= s,
            s <= 38,
            r == pow10(i as nat),
        decreases s - i,
    {
        proof {
            lemma_pow10_fits_u128((i + 1) as nat);
        }
        r = r * 10;
        i = i + 1;
    }
    r
}

impl Decimal {
    /// The represented scale is meaningful only while its power of ten is
    /// representable.
    pub open spec fn wf(self) -> bool {
        self.scale <= MAX_SCALE
    }

    /// The denominator implied by this number's scale, as a spec value.
    pub open spec fn spec_denominator(self) -> nat {
        pow10(self.scale as nat)
    }

    pub fn new(value: u128, scale: u8) -> (r: Self)
        requires
            scale <= MAX_SCALE,
        ensures
            r == (Decimal { val: value, scale }),
            r.wf(),
    {
        Self { val: value, scale }
    }

    pub fn denominator(self) -> (r: u128)
        requires
            self.wf(),
        ensures
            r == self.spec_denominator(),
    {
        pow10_u128(self.scale)
    }

    /// Euler's number to fifteen decimal digits, the decay base of the
    /// pricing formula.
    pub fn euler_value() -> (r: Self)
        ensures
            r == (Decimal { val: EULER_VAL, scale: 15 }),
            r.wf(),
    {
        Self { val: EULER_VAL, scale: 15 }
    }

    pub fn from_integer(integer: u64) -> (r: Self)
        ensures
            r == (Decimal { val: integer as u128, scale: 0 }),
            r.wf(),
    {
        Decimal { val: integer as u128, scale: 0 }
    }

    pub fn to_u64(self) -> (r: u64)
        requires
            self.val <= u64::MAX,
        ensures
            r == self.val,
    {
        self.val as u64
    }

    pub fn to_u128(self) -> (r: u128)
        ensures
            r == self.val,
    {
        self.val
    }

    /// What `add` returns: the checked sum, owed only at equal scales.
    pub open spec fn spec_add(self, other: Decimal) -> Result<Decimal, MyError> {
        if self.scale != other.scale {
            Err(MyError::DifferentScale)
        } else if self.val + other.val > u128::MAX {
            Err(MyError::NumericalOverflow)
        } else {
            Ok(Decimal { val: (self.val + other.val) as u128, scale: self.scale })
        }
    }

    pub fn add(self, other: Decimal) -> (r: Result<Decimal, MyError>)
        ensures
            r == self.spec_add(other),
    {
        if self.scale != other.scale {
            return Err(MyError::DifferentScale);
        }
        match self.val.checked_add(other.val) {
            Some(v) => Ok(Decimal { val: v, scale: self.scale }),
            None => Err(MyError::NumericalOverflow),
        }
    }

    /// What `sub` returns: the checked difference, owed only at equal scales.
    pub open spec fn spec_sub(self, other: Decimal) -> Result<Decimal, MyError> {
        if self.scale != other.scale {
            Err(MyError::DifferentScale)
        } else if self.val < other.val {
            Err(MyError::NumericalOverflow)
        } else {
            Ok(Decimal { val: (self.val - other.val) as u128, scale: self.scale })
        }
    }

    pub fn sub(self, other: Decimal) -> (r: Result<Decimal, MyError>)
        ensures
            r == self.spec_sub(other),
    {
        if self.scale != other.scale {
            return Err(MyError::DifferentScale);
        }
        match self.val.checked_sub(other.val) {
            Some(v) => Ok(Decimal { val: v, scale: self.scale }),
            None => Err(MyError::NumericalOverflow),
        }
    }

    /// What `mul` returns: `(self.val * other.val) / 10^other.scale`,
    /// floor-rounded, at `self`'s scale.
    pub open spec fn spec_mul(self, other: Decimal) -> Result<Decimal, MyError> {
        if self.val * other.val > u128::MAX {
            Err(MyError::NumericalOverflow)
        } else {
            Ok(
                Decimal {
                    val: ((self.val * other.val) / (pow10(other.scale as nat) as int)) as u128,
                    scale: self.scale,
                },
            )
        }
    }

    pub fn mul(self, other: Decimal) -> (r: Result<Decimal, MyError>)
        requires
            other.wf(),
        ensures
            r == self.spec_mul(other),
    {
        let den = other.denominator();
        proof {
            lemma_pow10_pos(other.scale as nat);
        }
        match self.val.checked_mul(other.val) {
            Some(p) => Ok(Decimal { val: p / den, scale: self.scale }),
            None => Err(MyError::NumericalOverflow),
        }
    }

    /// What `mul_up` returns: `(self.val * other.val) / 10^other.scale`,
    /// ceiling-rounded, at `self`'s scale.
    pub open spec fn spec_mul_up(self, other: Decimal) -> Result<Decimal, MyError> {
        let den = pow10(other.scale as nat) as int;
        if self.val * other.val + den - 1 > u128::MAX {
            Err(MyError::NumericalOverflow)
        } else {
            Ok(
                Decimal {
                    val: ((self.val * other.val + den - 1) / den) as u128,
                    scale: self.scale,
                },
            )
        }
    }

    pub fn mul_up(self, other: Decimal) -> (r: Result<Decimal, MyError>)
        requires
            other.wf(),
        ensures
            r == self.spec_mul_up(other),
    {
        let den = other.denominator();
        proof {
            lemma_pow10_pos(other.scale as nat);
        }
        match self.val.checked_mul(other.val) {
            Some(p) => match p.checked_add(den - 1) {
                Some(s) => Ok(Decimal { val: s / den, scale: self.scale }),
                None => Err(MyError::NumericalOverflow),
            },
            None => Err(MyError::NumericalOverflow),
        }
    }

    /// What `mul_scalar` returns: the magnitude scaled by a bare integer,
    /// the scale kept.
    pub open spec fn spec_mul_scalar(self, value: u128) -> Result<Decimal, MyError> {
        if self.val * value > u128::MAX {
            Err(MyError::NumericalOverflow)
        } else {
            Ok(Decimal { val: (self.val * value) as u128, scale: self.scale })
        }
    }

    pub fn mul_scalar(self, value: u128) -> (r: Result<Decimal, MyError>)
        ensures
            r == self.spec_mul_scalar(value),
    {
        match self.val.checked_mul(value) {
            Some(p) => Ok(Decimal { val: p, scale: self.scale }),
            None => Err(MyError::NumericalOverflow),
        }
    }

    /// What `div` returns: `(self.val * 10^other.scale) / other.val`,
    /// floor-rounded, at `self`'s scale.
    pub open spec fn spec_div(self, other: Decimal) -> Result<Decimal, MyError> {
        let den = pow10(other.scale as nat) as int;
        if self.val * den > u128::MAX || other.val == 0 {
            Err(MyError::NumericalOverflow)
        } else {
            Ok(Decimal { val: ((self.val * den) / (other.val as int)) as u128, scale: self.scale })
        }
    }

    pub fn div(self, other: Decimal) -> (r: Result<Decimal, MyError>)
        requires
            other.wf(),
        ensures
            r == self.spec_div(other),
    {
        let den = other.denominator();
        match self.val.checked_mul(den) {
            Some(p) => match p.checked_div(other.val) {
                Some(q) => Ok(Decimal { val: q, scale: self.scale }),
                None => Err(MyError::NumericalOverflow),
            },
            None => Err(MyError::NumericalOverflow),
        }
    }

    /// What `div_up` returns: `(self.val * 10^other.scale) / other.val`,
    /// ceiling-rounded, at `self`'s scale.
    pub open spec fn spec_div_up(self, other: Decimal) -> Result<Decimal, MyError> {
        let den = pow10(other.scale as nat) as int;
        if other.val == 0 || self.val * den + other.val - 1 > u128::MAX {
            Err(MyError::NumericalOverflow)
        } else {
            Ok(
                Decimal {
                    val: ((self.val * den + other.val - 1) / (other.val as int)) as u128,
                    scale: self.scale,
                },
            )
        }
    }

    pub fn div_up(self, other: Decimal) -> (r: Result<Decimal, MyError>)
        requires
            other.wf(),
        ensures
            r == self.spec_div_up(other),
    {
        let den = other.denominator();
        if other.val == 0 {
            return Err(MyError::NumericalOverflow);
        }
        match self.val.checked_mul(den) {
            Some(p) => match p.checked_add(other.val - 1) {
                Some(s) => Ok(Decimal { val: s / other.val, scale: self.scale }),
                None => Err(MyError::NumericalOverflow),
            },
            None => Err(MyError::NumericalOverflow),
        }
    }

    /// What `to_scale` returns: the magnitude moved to the target scale,
    /// floor-rounded when the scale shrinks, exact (but checked) when it
    /// grows.
    pub open spec fn spec_to_scale(self, scale: u8) -> Result<Decimal, MyError> {
        if self.scale > scale {
            Ok(
                Decimal {
                    val: (self.val as int / (pow10((self.scale - scale) as nat) as int)) as u128,
                    scale,
                },
            )
        } else if self.val * pow10((scale - self.scale) as nat) > u128::MAX {
            Err(MyError::NumericalOverflow)
        } else {
            Ok(Decimal { val: (self.val * pow10((scale - self.scale) as nat)) as u128, scale })
        }
    }

    pub fn to_scale(self, scale: u8) -> (r: Result<Decimal, MyError>)
        requires
            self.wf(),
            scale <= MAX_SCALE,
        ensures
            r == self.spec_to_scale(scale),
    {
        if self.scale > scale {
            let p = pow10_u128(self.scale - scale);
            proof {
                lemma_pow10_pos((self.scale - scale) as nat);
            }
            Ok(Decimal { val: self.val / p, scale })
        } else {
            let p = pow10_u128(scale - self.scale);
            match self.val.checked_mul(p) {
                Some(v) => Ok(Decimal { val: v, scale }),
                None => Err(MyError::NumericalOverflow),
            }
        }
    }

    /// What `to_scale_up` returns: the magnitude moved to the target scale,
    /// ceiling-rounded when the scale shrinks, exact (but checked) when it
    /// grows.
    pub open spec fn spec_to_scale_up(self, scale: u8) -> Result<Decimal, MyError> {
        if self.scale >= scale {
            let p = pow10((self.scale - scale) as nat) as int;
            if self.val + p - 1 > u128::MAX {
                Err(MyError::NumericalOverflow)
            } else {
                Ok(Decimal { val: ((self.val + p - 1) / p) as u128, scale })
            }
        } else {
            let p = pow10((scale - self.scale) as nat) as int;
            if self.val * p > u128::MAX {
                Err(MyError::NumericalOverflow)
            } else {
                Ok(Decimal { val: (self.val * p) as u128, scale })
            }
        }
    }

    pub fn to_scale_up(self, scale: u8) -> (r: Result<Decimal, MyError>)
        requires
            self.wf(),
            scale <= MAX_SCALE,
        ensures
            r == self.spec_to_scale_up(scale),
    {
        let decimal = Self::new(self.val, scale);
        if self.scale >= scale {
            let p = pow10_u128(self.scale - scale);
            proof {
                lemma_pow10_pos((self.scale - scale) as nat);
            }
            let r = decimal.div_up(Self::new(p, 0));
            proof {
                assert(pow10(0) == 1);
                assert(self.val * pow10(0) == self.val) by (nonlinear_arith);
            }
            r
        } else {
            let p = pow10_u128(scale - self.scale);
            proof {
                lemma_pow10_pos((scale - self.scale) as nat);
            }
            let r = decimal.mul_up(Self::new(p, 0));
            proof {
                assert(pow10(0) == 1);
                let pp = pow10((scale - self.scale) as nat) as int;
                assert((self.val * pp + 1 - 1) / 1 == self.val * pp);
            }
            r
        }
    }

    /// Round-trip rescaling: moving a number up to any coarser-grained
    /// scale `s1` and back down to its own scale recovers it exactly,
    /// whenever both steps stay representable.
    pub proof fn lemma_rescale_round_trip(self, s1: u8, up: Decimal, back: Decimal)
        requires
            s1 >= self.scale,
            self.spec_to_scale(s1) == Ok::<Decimal, MyError>(up),
            up.spec_to_scale(self.scale) == Ok::<Decimal, MyError>(back),
        ensures
            back == self,
    {
        let p = pow10((s1 - self.scale) as nat) as int;
        lemma_pow10_pos((s1 - self.scale) as nat);
        assert(up.val == self.val * p);
        if s1 > self.scale {
            lemma_mul_nonnegative(self.val as int, p);
            lemma_div_pos_is_pos(up.val as int, p);
            assert((up.val as int) / p <= up.val as int) by (nonlinear_arith)
                requires
                    p >= 1,
                    up.val >= 0,
            ;
            assert(back.val as int == (self.val * p) / p);
            assert((self.val * p) / p == (p * (self.val as int)) / p) by (nonlinear_arith);
            lemma_div_multiples_vanish(self.val as int, p);
            assert(back.val == self.val);
        } else {
            assert(p == 1);
            assert(self.val * p == self.val) by (nonlinear_arith)
                requires
                    p == 1,
            ;
            assert(up.val == self.val);
            assert(up.val * p == up.val) by (nonlinear_arith)
                requires
                    p == 1,
            ;
            assert(back.val == self.val);
        }
        assert(back.val == self.val);
        assert(back.scale == self.scale);
    }

    /// What `div_to_scale` returns: the quotient carried directly to the
    /// requested scale in a single floor-rounding step.
    pub open spec fn spec_div_to_scale(self, other: Decimal, to_scale: u8) -> Result<
        Decimal,
        MyError,
    > {
        let dd = self.scale - to_scale - other.scale;
        if dd > 0 {
            if other.val == 0 {
                Err(MyError::NumericalOverflow)
            } else {
                Ok(
                    Decimal {
                        val: ((self.val as int / (other.val as int)) / (pow10(
                            dd as nat,
                        ) as int)) as u128,
                        scale: to_scale,
                    },
                )
            }
        } else {
            if -dd > MAX_SCALE {
                Err(MyError::NumericalOverflow)
            } else if self.val * pow10((-dd) as nat) > u128::MAX {
                Err(MyError::NumericalOverflow)
            } else if other.val == 0 {
                Err(MyError::NumericalOverflow)
            } else {
                Ok(
                    Decimal {
                        val: ((self.val * pow10((-dd) as nat)) / (other.val as int)) as u128,
                        scale: to_scale,
                    },
                )
            }
        }
    }

    pub fn div_to_scale(self, other: Decimal, to_scale: u8) -> (r: Result<Decimal, MyError>)
        requires
            self.wf(),
            other.wf(),
            to_scale <= MAX_SCALE,
        ensures
            r == self.spec_div_to_scale(other, to_scale),
    {
        let dd: i32 = (self.scale as i32) - (to_scale as i32) - (other.scale as i32);
        if dd > 0 {
            if other.val == 0 {
                return Err(MyError::NumericalOverflow);
            }
            let p = pow10_u128(dd as u8);
            proof {
                lemma_pow10_pos(dd as nat);
            }
            Ok(Decimal { val: (self.val / other.val) / p, scale: to_scale })
        } else {
            let up = -dd;
            if up > MAX_SCALE as i32 {
                return Err(MyError::NumericalOverflow);
            }
            let p = pow10_u128(up as u8);
            match self.val.checked_mul(p) {
                Some(v) => {
                    if other.val == 0 {
                        Err(MyError::NumericalOverflow)
                    } else {
                        Ok(Decimal { val: v / other.val, scale: to_scale })
                    }
                },
                None => Err(MyError::NumericalOverflow),
            }
        }
    }

    /// What `pow_with_accuracy` returns: the square-and-multiply power at
    /// `self`'s scale, starting from the multiplicative identity, every
    /// intermediate product checked.
    pub open spec fn spec_pow(self, exp: u128) -> Result<Decimal, MyError> {
        let den = pow10(self.scale as nat);
        if pow_acc_ok(den, self.val as nat, den, exp as nat) {
            Ok(
                Decimal {
                    val: pow_acc_val(den, self.val as nat, den, exp as nat) as u128,
                    scale: self.scale,
                },
            )
        } else {
            Err(MyError::NumericalOverflow)
        }
    }

    /// Raising any base to the zeroth power yields the multiplicative
    /// identity at the base's scale, and never fails.
    pub proof fn lemma_pow_zero_identity(self)
        requires
            self.wf(),
        ensures
            self.spec_pow(0) == Ok::<Decimal, MyError>(
                (Decimal { val: pow10(self.scale as nat) as u128, scale: self.scale }),
            ),
    {
        lemma_pow10_fits_u128(self.scale as nat);
    }

    pub fn pow_with_accuracy(self, exp: u128) -> (r: Result<Decimal, MyError>)
        requires
            self.wf(),
        ensures
            r == self.spec_pow(exp),
    {
        let ghost den = pow10(self.scale as nat);
        let one = Decimal { val: self.denominator(), scale: self.scale };
        if exp == 0 {
            return Ok(one);
        }
        let mut current_exp = exp;
        let mut base = self;
        let mut result = one;
        while current_exp > 0
            invariant
                self.wf(),
                base.scale == self.scale,
                result.scale == self.scale,
                den == pow10(self.scale as nat),
                pow_acc_ok(den, self.val as nat, den, exp as nat) <==> pow_acc_ok(
                    result.val as nat,
                    base.val as nat,
                    den,
                    current_exp as nat,
                ),
                pow_acc_ok(result.val as nat, base.val as nat, den, current_exp as nat)
                    ==> pow_acc_val(den, self.val as nat, den, exp as nat) == pow_acc_val(
                    result.val as nat,
                    base.val as nat,
                    den,
                    current_exp as nat,
                ),
            decreases current_exp,
        {
            let ghost r0: nat = result.val as nat;
            let ghost b0: nat = base.val as nat;
            let ghost e0: nat = current_exp as nat;
            if current_exp % 2 != 0 {
                match result.mul(base) {
                    Ok(x) => {
                        result = x;
                    },
                    Err(e) => {
                        assert(!pow_acc_ok(r0, b0, den, e0));
                        return Err(e);
                    },
                }
            }
            current_exp = current_exp / 2;
            match base.mul(base) {
                Ok(x) => {
                    base = x;
                },
                Err(e) => {
                    assert(!pow_acc_ok(r0, b0, den, e0));
                    return Err(e);
                },
            }
            proof {
                lemma_pow10_pos(self.scale as nat);
                assert((r0 * b0) as int / (den as int) <= (r0 * b0) as int) by (nonlinear_arith)
                    requires
                        den >= 1,
                ;
                assert((b0 * b0) as int / (den as int) <= (b0 * b0) as int) by (nonlinear_arith)
                    requires
                        den >= 1,
                ;
                assert(result.val as nat == if e0 % 2 == 1 {
                    dmul(r0, b0, den)
                } else {
                    r0
                });
                assert(base.val as nat == dmul(b0, b0, den));
            }
        }
        Ok(result)
    }
}

} // verus!
