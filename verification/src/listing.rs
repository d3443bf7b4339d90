//! The auction ledger entry and its pricing formula.
//!
//! A [`ListingConfig`] holds the per-listing configuration and sale
//! counters. Its price function quotes the cumulative amount owed for
//! buying `q` more units at time `now`:
//!
//! `price = k * a^m * (a^q - 1) / (e^(lambda*t) * (a - 1))`
//!
//! computed in checked fixed-point arithmetic and rounded upward, never in
//! the buyer's favor. The host's clock is read outside this crate; callers
//! pass `now` in as a plain value.

use vstd::prelude::*;
use vstd::arithmetic::power::pow;
use vstd::arithmetic::mul::lemma_mul_nonnegative;
use vstd::arithmetic::div_mod::lemma_div_multiples_vanish;
use crate::math::{
    Decimal,
    MyError,
    EULER_VAL,
    pow10,
    pow_acc_ok,
    pow_acc_val,
    lemma_pow10_pos,
    lemma_pow_acc_exact,
    lemma_pow_acc_val_bound,
};

verus! {

/// Per-listing durable state: configuration fixed at creation plus the
/// cumulative sale counter.
#[derive(Clone, Copy, Debug, PartialEq, Eq, Structural)]
pub struct ListingConfig {
    /// Total quantity offered, fixed at creation.
    pub token_size: u64,
    /// Cumulative quantity already counted against the decay formula.
    pub items_sold: u64,
    /// Base price constant `k`.
    pub start_price: u64,
    /// Decay rate exponent `lambda`.
    pub decay_const: u8,
    /// Growth constant `a`, applied per unit sold.
    pub scale_factor: u64,
    /// Auction genesis time, seconds.
    pub first_init_timestamp: i64,
    /// Auction close time, seconds.
    pub end_timestamp: i64,
    /// Derivation salt of the entry's storage address.
    pub bump: u8,
}

impl ListingConfig {
    /// The entry's invariants: the close time lies after genesis and the
    /// sale counter never exceeds the supply.
    pub open spec fn wf(self) -> bool {
        &&& self.first_init_timestamp < self.end_timestamp
        &&& self.items_sold <= self.token_size
    }

    /// Seconds elapsed since the auction's genesis.
    pub open spec fn spec_elapsed(self, now: i64) -> int {
        now - self.first_init_timestamp
    }

    /// Exact integer numerator of the price formula:
    /// `k * a^m * (a^q - 1)`.
    pub open spec fn spec_num(self, q: u64) -> int {
        self.start_price * pow(self.scale_factor as int, self.items_sold as nat) * (pow(
            self.scale_factor as int,
            q as nat,
        ) - 1)
    }

    /// The fixed-point magnitude of `e^(lambda*t)` at scale 15, as the
    /// square-and-multiply loop computes it.
    pub open spec fn spec_epow(self, now: i64) -> nat {
        pow_acc_val(
            pow10(15),
            EULER_VAL as nat,
            pow10(15),
            (self.spec_elapsed(now) * self.decay_const) as nat,
        )
    }

    /// Denominator of the price formula at scale 15: `e^(lambda*t) * (a-1)`.
    pub open spec fn spec_den(self, now: i64) -> int {
        self.spec_epow(now) * (self.scale_factor - 1)
    }

    /// The quoted price: the numerator brought to scale 15 and divided by
    /// the denominator, ceiling-rounded to an integer.
    pub open spec fn spec_price_val(self, now: i64, q: u64) -> int {
        (self.spec_num(q) * pow10(15) + self.spec_den(now) - 1) / self.spec_den(now)
    }

    /// When the pricing computation succeeds: the auction has started and
    /// every checked step of the fixed arithmetic order stays representable.
    pub open spec fn price_ok(self, now: i64, q: u64) -> bool {
        let a = self.scale_factor as nat;
        let m = self.items_sold as nat;
        let k = self.start_price as int;
        let t = self.spec_elapsed(now);
        &&& t >= 0
        &&& pow_acc_ok(1, a, 1, m)
        &&& k * pow(a as int, m) <= u128::MAX
        &&& pow_acc_ok(1, a, 1, q as nat)
        &&& pow(a as int, q as nat) >= 1
        &&& self.spec_num(q) <= u128::MAX
        &&& pow_acc_ok(pow10(15), EULER_VAL as nat, pow10(15), (t * self.decay_const) as nat)
        &&& a >= 1
        &&& self.spec_den(now) <= u128::MAX
        &&& self.spec_den(now) >= 1
        &&& self.spec_num(q) * pow10(15) + self.spec_den(now) - 1 <= u128::MAX
        &&& self.spec_price_val(now, q) <= u64::MAX
    }

    /// What `calculate_price` returns: the ceiling-rounded quote whenever
    /// every checked step succeeds, a fatal overflow error otherwise.
    pub open spec fn spec_calculate_price(self, now: i64, q: u64) -> Result<u64, MyError> {
        if self.price_ok(now, q) {
            Ok(self.spec_price_val(now, q) as u64)
        } else {
            Err(MyError::NumericalOverflow)
        }
    }

    /// Total price owed for purchasing `order_size` more units at time
    /// `now`, given `items_sold` units already counted.
    pub fn calculate_price(&self, now: i64, order_size: u64) -> (r: Result<u64, MyError>)
        ensures
            r == self.spec_calculate_price(now, order_size),
    {
        let m = Decimal::from_integer(self.items_sold);
        let k = Decimal::from_integer(self.start_price);
        let q = Decimal::from_integer(order_size);
        let e = Decimal::euler_value();
        let one = Decimal::from_integer(1);
        let decay = self.decay_const as u128;
        if now < self.first_init_timestamp {
            return Err(MyError::NumericalOverflow);
        }
        let diff_wide: i128 = (now as i128) - (self.first_init_timestamp as i128);
        proof {
            assert(0 <= diff_wide <= u64::MAX);
        }
        let t = Decimal::from_integer(diff_wide as u64);
        let a = Decimal::from_integer(self.scale_factor);
        let ghost ai: int = self.scale_factor as int;
        let ghost mn: nat = self.items_sold as nat;
        let ghost qn: nat = order_size as nat;
        proof {
            assert(pow10(0) == 1);
            lemma_pow10_pos(15);
            crate::math::lemma_pow10_fits_u128(15);
        }
        let powm = match a.pow_with_accuracy(m.val) {
            Ok(x) => x,
            Err(er) => {
                return Err(er);
            },
        };
        proof {
            lemma_pow_acc_exact(1, self.scale_factor as nat, mn);
            lemma_pow_acc_val_bound(1, self.scale_factor as nat, 1, mn);
            assert(powm.val == pow(ai, mn));
        }
        let num1 = match k.mul(powm) {
            Ok(x) => x,
            Err(er) => {
                return Err(er);
            },
        };
        proof {
            assert(num1.val == self.start_price * pow(ai, mn));
        }
        let powq = match a.pow_with_accuracy(q.val) {
            Ok(x) => x,
            Err(er) => {
                return Err(er);
            },
        };
        proof {
            lemma_pow_acc_exact(1, self.scale_factor as nat, qn);
            lemma_pow_acc_val_bound(1, self.scale_factor as nat, 1, qn);
            assert(powq.val == pow(ai, qn));
        }
        let num2 = match powq.sub(one) {
            Ok(x) => x,
            Err(er) => {
                return Err(er);
            },
        };
        proof {
            assert((diff_wide as u64) * (self.decay_const as u128) <= u128::MAX)
                by (nonlinear_arith)
                requires
                    diff_wide as u64 <= u64::MAX,
                    self.decay_const <= u8::MAX,
            ;
        }
        let lt = match t.mul_scalar(decay) {
            Ok(x) => x,
            Err(er) => {
                return Err(er);
            },
        };
        proof {
            assert(lt.val == self.spec_elapsed(now) * self.decay_const);
        }
        let den1 = match e.pow_with_accuracy(lt.val) {
            Ok(x) => x,
            Err(er) => {
                return Err(er);
            },
        };
        proof {
            lemma_pow_acc_val_bound(
                pow10(15),
                EULER_VAL as nat,
                pow10(15),
                (self.spec_elapsed(now) * self.decay_const) as nat,
            );
            assert(den1.val == self.spec_epow(now));
        }
        let den2 = match a.sub(one) {
            Ok(x) => x,
            Err(er) => {
                return Err(er);
            },
        };
        let num = match num1.mul(num2) {
            Ok(x) => x,
            Err(er) => {
                return Err(er);
            },
        };
        proof {
            assert(num2.val == pow(ai, qn) - 1);
            lemma_mul_nonnegative(num1.val as int, num2.val as int);
            lemma_div_multiples_vanish((num1.val * num2.val) as int, 1);
            assert(num.val == num1.val * num2.val);
            assert(num1.val * num2.val == (self.start_price * pow(ai, mn)) * (pow(ai, qn) - 1));
            assert(self.spec_num(order_size) == (self.start_price * pow(ai, mn)) * (pow(ai, qn)
                - 1));
            assert(num.val == self.spec_num(order_size));
        }
        let den = match den1.mul(den2) {
            Ok(x) => x,
            Err(er) => {
                return Err(er);
            },
        };
        proof {
            assert(den.val == self.spec_den(now));
        }
        let cumulative = match num.div_up(den) {
            Ok(x) => x,
            Err(er) => {
                return Err(er);
            },
        };
        proof {
            assert(cumulative.val == self.spec_price_val(now, order_size));
            assert(cumulative.scale == 0);
            assert(cumulative.val * pow10(0) == cumulative.val);
            assert(cumulative.spec_to_scale(0) == Ok::<Decimal, MyError>(cumulative));
        }
        let rescaled = match cumulative.to_scale(0) {
            Ok(x) => x,
            Err(er) => {
                return Err(er);
            },
        };
        if rescaled.val > u64::MAX as u128 {
            return Err(MyError::NumericalOverflow);
        }
        Ok(rescaled.to_u64())
    }
}

/// Consequences of a successful pricing computation that the laws below
/// lean on: the numerator is non-negative, the denominator positive, and
/// the growth constant at least two.
proof fn lemma_price_ok_facts(cfg: ListingConfig, now: i64, q: u64)
    requires
        cfg.price_ok(now, q),
    ensures
        cfg.spec_num(q) >= 0,
        cfg.spec_num(q) * pow10(15) >= 0,
        cfg.spec_den(now) >= 1,
        cfg.scale_factor >= 2,
        cfg.spec_price_val(now, q) >= 0,
{
    let a = cfg.scale_factor as int;
    let k = cfg.start_price as int;
    let powm = pow(a, cfg.items_sold as nat);
    let powq = pow(a, q as nat);
    vstd::arithmetic::power::lemma_pow_positive(a, cfg.items_sold as nat);
    lemma_mul_nonnegative(k, powm);
    lemma_mul_nonnegative(k * powm, powq - 1);
    lemma_pow10_pos(15);
    lemma_mul_nonnegative(cfg.spec_num(q), pow10(15) as int);
    if cfg.scale_factor < 2 {
        assert(cfg.spec_epow(now) * (cfg.scale_factor - 1) <= 0) by (nonlinear_arith)
            requires
                cfg.scale_factor as int - 1 <= 0,
                cfg.spec_epow(now) >= 0,
        ;
    }
    vstd::arithmetic::div_mod::lemma_div_pos_is_pos(
        cfg.spec_num(q) * pow10(15) + cfg.spec_den(now) - 1,
        cfg.spec_den(now),
    );
}

/// `pow10(15)` written out, and the fact that the stored Euler magnitude
/// lies above it (the base `e` exceeds one).
proof fn lemma_euler_exceeds_one()
    ensures
        pow10(15) == 1000000000000000,
        EULER_VAL as nat >= pow10(15),
{
    assert(pow10(15) == 1000000000000000) by {
        reveal_with_fuel(pow10, 16);
    }
}

/// The quoted price never decreases as more units have already been sold:
/// with every other input equal, a larger `items_sold` yields at least as
/// high a price.
pub proof fn lemma_price_non_decreasing_in_items_sold(
    cfg1: ListingConfig,
    cfg2: ListingConfig,
    now: i64,
    q: u64,
    p1: u64,
    p2: u64,
)
    requires
        cfg1.items_sold <= cfg2.items_sold,
        cfg2.start_price == cfg1.start_price,
        cfg2.decay_const == cfg1.decay_const,
        cfg2.scale_factor == cfg1.scale_factor,
        cfg2.first_init_timestamp == cfg1.first_init_timestamp,
        cfg1.spec_calculate_price(now, q) == Ok::<u64, MyError>(p1),
        cfg2.spec_calculate_price(now, q) == Ok::<u64, MyError>(p2),
    ensures
        p1 <= p2,
{
    let a = cfg1.scale_factor as int;
    let k = cfg1.start_price as int;
    let powq = pow(a, q as nat);
    let powm1 = pow(a, cfg1.items_sold as nat);
    let powm2 = pow(a, cfg2.items_sold as nat);
    lemma_price_ok_facts(cfg1, now, q);
    lemma_price_ok_facts(cfg2, now, q);
    vstd::arithmetic::power::lemma_pow_positive(a, cfg1.items_sold as nat);
    vstd::arithmetic::power::lemma_pow_increases(
        cfg1.scale_factor as nat,
        cfg1.items_sold as nat,
        cfg2.items_sold as nat,
    );
    assert((cfg1.scale_factor as nat) as int == a);
    assert(cfg1.spec_num(q) <= cfg2.spec_num(q)) by (nonlinear_arith)
        requires
            0 <= powm1 <= powm2,
            k >= 0,
            powq - 1 >= 0,
            cfg1.spec_num(q) == k * powm1 * (powq - 1),
            cfg2.spec_num(q) == k * powm2 * (powq - 1),
    ;
    assert(cfg1.spec_den(now) == cfg2.spec_den(now));
    lemma_pow10_pos(15);
    vstd::arithmetic::mul::lemma_mul_inequality(
        cfg1.spec_num(q),
        cfg2.spec_num(q),
        pow10(15) as int,
    );
    crate::math::lemma_ceil_div_mono_numerator(
        cfg1.spec_num(q) * pow10(15),
        cfg2.spec_num(q) * pow10(15),
        cfg1.spec_den(now),
    );
}

/// The quoted price never decreases in the requested quantity: buying
/// more at once never costs less in total.
pub proof fn lemma_price_non_decreasing_in_quantity(
    cfg: ListingConfig,
    now: i64,
    q1: u64,
    q2: u64,
    p1: u64,
    p2: u64,
)
    requires
        q1 <= q2,
        cfg.spec_calculate_price(now, q1) == Ok::<u64, MyError>(p1),
        cfg.spec_calculate_price(now, q2) == Ok::<u64, MyError>(p2),
    ensures
        p1 <= p2,
{
    let a = cfg.scale_factor as int;
    let k = cfg.start_price as int;
    let powm = pow(a, cfg.items_sold as nat);
    let powq1 = pow(a, q1 as nat);
    let powq2 = pow(a, q2 as nat);
    lemma_price_ok_facts(cfg, now, q1);
    lemma_price_ok_facts(cfg, now, q2);
    vstd::arithmetic::power::lemma_pow_increases(cfg.scale_factor as nat, q1 as nat, q2 as nat);
    vstd::arithmetic::power::lemma_pow_positive(a, cfg.items_sold as nat);
    assert(cfg.spec_num(q1) <= cfg.spec_num(q2)) by (nonlinear_arith)
        requires
            1 <= powq1 <= powq2,
            k >= 0,
            powm >= 0,
            cfg.spec_num(q1) == k * powm * (powq1 - 1),
            cfg.spec_num(q2) == k * powm * (powq2 - 1),
    ;
    lemma_pow10_pos(15);
    vstd::arithmetic::mul::lemma_mul_inequality(
        cfg.spec_num(q1),
        cfg.spec_num(q2),
        pow10(15) as int,
    );
    crate::math::lemma_ceil_div_mono_numerator(
        cfg.spec_num(q1) * pow10(15),
        cfg.spec_num(q2) * pow10(15),
        cfg.spec_den(now),
    );
}

/// Dutch-auction decay: with every other input equal, the quoted price
/// never increases as time passes.
pub proof fn lemma_price_non_increasing_in_time(
    cfg: ListingConfig,
    now1: i64,
    now2: i64,
    q: u64,
    p1: u64,
    p2: u64,
)
    requires
        now1 <= now2,
        cfg.spec_calculate_price(now1, q) == Ok::<u64, MyError>(p1),
        cfg.spec_calculate_price(now2, q) == Ok::<u64, MyError>(p2),
    ensures
        p2 <= p1,
{
    let t1 = cfg.spec_elapsed(now1);
    let t2 = cfg.spec_elapsed(now2);
    let lam = cfg.decay_const as int;
    lemma_price_ok_facts(cfg, now1, q);
    lemma_price_ok_facts(cfg, now2, q);
    lemma_euler_exceeds_one();
    vstd::arithmetic::mul::lemma_mul_inequality(t1, t2, lam);
    crate::math::lemma_pow_acc_mono_e(
        EULER_VAL as nat,
        pow10(15),
        (t1 * lam) as nat,
        (t2 * lam) as nat,
    );
    vstd::arithmetic::mul::lemma_mul_inequality(
        cfg.spec_epow(now1) as int,
        cfg.spec_epow(now2) as int,
        cfg.scale_factor - 1,
    );
    crate::math::lemma_ceil_div_mono_denominator(
        cfg.spec_num(q) * pow10(15),
        cfg.spec_den(now1),
        cfg.spec_den(now2),
    );
}

/// Purchasing nothing costs nothing: with a zero quantity the
/// `a^0 - 1` term annuls the numerator and the quote is exactly zero.
pub proof fn lemma_price_zero_quantity(cfg: ListingConfig, now: i64, p: u64)
    requires
        cfg.spec_calculate_price(now, 0) == Ok::<u64, MyError>(p),
    ensures
        p == 0,
{
    let a = cfg.scale_factor as int;
    let k = cfg.start_price as int;
    lemma_price_ok_facts(cfg, now, 0);
    vstd::arithmetic::power::lemma_pow0(a);
    assert(cfg.spec_num(0) == 0) by (nonlinear_arith)
        requires
            cfg.spec_num(0) == k * pow(a, cfg.items_sold as nat) * (pow(a, 0) - 1),
            pow(a, 0) == 1,
    ;
    assert(cfg.spec_num(0) * pow10(15) == 0) by (nonlinear_arith)
        requires
            cfg.spec_num(0) == 0,
    ;
    vstd::arithmetic::div_mod::lemma_basic_div(
        cfg.spec_den(now) - 1,
        cfg.spec_den(now),
    );
}

/// Ceiling bias: a strictly positive exact price never rounds down to
/// zero; with a positive base price and quantity the quote is at least
/// one.
pub proof fn lemma_price_never_rounds_to_zero(cfg: ListingConfig, now: i64, q: u64, p: u64)
    requires
        cfg.spec_calculate_price(now, q) == Ok::<u64, MyError>(p),
        cfg.start_price >= 1,
        q >= 1,
    ensures
        p >= 1,
{
    let a = cfg.scale_factor as int;
    let k = cfg.start_price as int;
    let powm = pow(a, cfg.items_sold as nat);
    let powq = pow(a, q as nat);
    lemma_price_ok_facts(cfg, now, q);
    vstd::arithmetic::power::lemma_pow_positive(a, cfg.items_sold as nat);
    vstd::arithmetic::power::lemma_pow1(a);
    vstd::arithmetic::power::lemma_pow_increases(cfg.scale_factor as nat, 1, q as nat);
    assert(cfg.spec_num(q) >= 1) by (nonlinear_arith)
        requires
            k >= 1,
            powm >= 1,
            powq >= 2,
            cfg.spec_num(q) == k * powm * (powq - 1),
    ;
    lemma_pow10_pos(15);
    assert(cfg.spec_num(q) * pow10(15) >= 1) by (nonlinear_arith)
        requires
            cfg.spec_num(q) >= 1,
            pow10(15) >= 1,
    ;
    let nval = cfg.spec_num(q) * pow10(15);
    let d = cfg.spec_den(now);
    vstd::arithmetic::div_mod::lemma_div_is_ordered(d, nval + d - 1, d);
    vstd::arithmetic::div_mod::lemma_div_by_self(d);
}

/// The rounding law: the quote is the least integer at or above the
/// exact quotient `num * 10^15 / den` — it covers the exact value, and
/// overshoots it by less than one whole unit of the denominator.
pub proof fn lemma_price_rounds_up(cfg: ListingConfig, now: i64, q: u64, p: u64)
    requires
        cfg.spec_calculate_price(now, q) == Ok::<u64, MyError>(p),
    ensures
        p * cfg.spec_den(now) >= cfg.spec_num(q) * pow10(15),
        (p - 1) * cfg.spec_den(now) < cfg.spec_num(q) * pow10(15),
{
    lemma_price_ok_facts(cfg, now, q);
    crate::math::lemma_ceil_div_bounds(cfg.spec_num(q) * pow10(15), cfg.spec_den(now));
}

/// Initialize the ledger entry of a fresh sell listing: the configuration
/// is copied in, the genesis time is the current instant, and nothing has
/// been sold yet.
pub fn auctioneer_sell(
    token_size: u64,
    now: i64,
    end_time: i64,
    start_price: u64,
    decay_constant: u8,
    scale_factor: u64,
    bump: u8,
) -> (r: ListingConfig)
    requires
        now < end_time,
    ensures
        r == (ListingConfig {
            token_size,
            items_sold: 0,
            start_price,
            decay_const: decay_constant,
            scale_factor,
            first_init_timestamp: now,
            end_timestamp: end_time,
            bump,
        }),
        r.wf(),
{
    ListingConfig {
        token_size,
        items_sold: 0,
        start_price,
        decay_const: decay_constant,
        scale_factor,
        first_init_timestamp: now,
        end_timestamp: end_time,
        bump,
    }
}

} // verus!
