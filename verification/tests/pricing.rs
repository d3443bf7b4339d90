use gda::listing::{auctioneer_sell, ListingConfig};
use gda::math::MyError;

fn base_listing() -> ListingConfig {
    ListingConfig {
        token_size: 100,
        items_sold: 0,
        start_price: 1000,
        decay_const: 1,
        scale_factor: 2,
        first_init_timestamp: 0,
        end_timestamp: 1000,
        bump: 255,
    }
}

#[test]
fn sell_initializes_listing() {
    let cfg = auctioneer_sell(100, 50, 1000, 1000, 1, 2, 254);
    assert_eq!(cfg.token_size, 100);
    assert_eq!(cfg.items_sold, 0);
    assert_eq!(cfg.start_price, 1000);
    assert_eq!(cfg.decay_const, 1);
    assert_eq!(cfg.scale_factor, 2);
    assert_eq!(cfg.first_init_timestamp, 50);
    assert_eq!(cfg.end_timestamp, 1000);
    assert_eq!(cfg.bump, 254);
}

#[test]
fn price_at_genesis_is_start_price() {
    // k=1000, a=2, lambda=1, m=0, q=1, t=0:
    // 1000 * 2^0 * (2^1 - 1) / (e^0 * (2 - 1)) = 1000
    let cfg = base_listing();
    assert_eq!(cfg.calculate_price(0, 1), Ok(1000));
}

#[test]
fn price_zero_quantity_is_zero() {
    let cfg = base_listing();
    assert_eq!(cfg.calculate_price(0, 0), Ok(0));
    assert_eq!(cfg.calculate_price(7, 0), Ok(0));
}

#[test]
fn price_after_one_second_decays() {
    // denominator e^1 = 2.718281828459045: 10^18 / that, rounded up
    let cfg = base_listing();
    assert_eq!(cfg.calculate_price(1, 1), Ok(368));
}

#[test]
fn price_rounds_up_to_one_never_zero() {
    // e^15 > 10^6, so the exact price is far below one unit;
    // the ceiling keeps it at the smallest positive integer
    let cfg = base_listing();
    assert_eq!(cfg.calculate_price(15, 1), Ok(1));
}

#[test]
fn price_decay_exponent_overflow_fails() {
    // at e^16 an intermediate square of the decay base no longer fits
    let cfg = base_listing();
    assert_eq!(cfg.calculate_price(16, 1), Err(MyError::NumericalOverflow));
}

#[test]
fn price_non_decreasing_in_items_sold() {
    let cfg0 = base_listing();
    let mut cfg1 = base_listing();
    cfg1.items_sold = 1;
    let p0 = cfg0.calculate_price(0, 1).unwrap();
    let p1 = cfg1.calculate_price(0, 1).unwrap();
    assert_eq!(p0, 1000);
    assert_eq!(p1, 2000);
    assert!(p0 <= p1);
}

#[test]
fn price_non_decreasing_in_quantity() {
    let cfg = base_listing();
    let p1 = cfg.calculate_price(0, 1).unwrap();
    let p2 = cfg.calculate_price(0, 2).unwrap();
    assert_eq!(p2, 3000);
    assert!(p1 <= p2);
}

#[test]
fn price_non_increasing_in_time() {
    let cfg = base_listing();
    let early = cfg.calculate_price(0, 1).unwrap();
    let later = cfg.calculate_price(5, 1).unwrap();
    assert_eq!(later, 7);
    assert!(later <= early);
}

#[test]
fn price_before_genesis_fails() {
    let mut cfg = base_listing();
    cfg.first_init_timestamp = 100;
    cfg.end_timestamp = 1000;
    assert_eq!(cfg.calculate_price(99, 1), Err(MyError::NumericalOverflow));
}

#[test]
fn price_growth_factor_one_fails() {
    // a - 1 = 0 leaves a zero denominator: a fatal arithmetic error
    let mut cfg = base_listing();
    cfg.scale_factor = 1;
    assert_eq!(cfg.calculate_price(0, 1), Err(MyError::NumericalOverflow));
}

#[test]
fn price_extreme_inputs_overflow() {
    let mut cfg = base_listing();
    cfg.scale_factor = u64::MAX;
    cfg.items_sold = u64::MAX;
    assert_eq!(cfg.calculate_price(0, 1), Err(MyError::NumericalOverflow));
}

#[test]
fn price_ceiling_covers_exact_quotient() {
    // p = 368 at t=1: 367 * e-denominator falls short of the exact
    // numerator, 368 * it covers it — the ceiling bias of the final divide
    let cfg = base_listing();
    let p = cfg.calculate_price(1, 1).unwrap() as u128;
    let den: u128 = 2718281828459045;
    let num: u128 = 1000 * 1_000_000_000_000_000;
    assert!(p * den >= num);
    assert!((p - 1) * den < num);
}
