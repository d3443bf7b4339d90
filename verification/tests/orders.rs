use gda::listing::ListingConfig;
use gda::math::MyError;
use gda::order::{
    auctioneer_place_order_logic, choose_fee_payer, place_order, MarketState, OrderId,
};
use gda::util::{AuctionHouse, Auctioneer, Pubkey};

fn key(tag: u8) -> Pubkey {
    Pubkey::new([tag; 32])
}

fn house() -> AuctionHouse {
    AuctionHouse {
        key: key(1),
        authority: key(2),
        auctioneer_address: key(3),
        has_auctioneer: true,
        requires_sign_off: false,
    }
}

fn pda() -> Auctioneer {
    Auctioneer {
        key: key(3),
        auctioneer_authority: key(4),
        auction_house: key(1),
    }
}

fn fresh_state() -> MarketState {
    MarketState { escrow_balance: 0, orders: Vec::new() }
}

fn intake(
    state: &mut MarketState,
    house: &AuctionHouse,
    price: u64,
    rent: u64,
) -> Result<gda::order::OrderOutcome, MyError> {
    auctioneer_place_order_logic(
        state,
        house,
        &key(4),
        &pda(),
        &key(5),
        &key(5),
        7,
        8,
        price,
        2,
        false,
        true,
        rent,
        true,
        8,
        7,
    )
}

#[test]
fn fee_payer_follows_sign_off_policy() {
    let wallet = key(5);
    let authority = key(2);
    let buyer_pays = choose_fee_payer(true, &wallet, &authority);
    assert_eq!(buyer_pays.bytes, wallet.bytes);
    let house_pays = choose_fee_payer(false, &wallet, &authority);
    assert_eq!(house_pays.bytes, authority.bytes);
}

#[test]
fn intake_transfers_shortfall_and_creates_record() {
    let mut state = fresh_state();
    let out = intake(&mut state, &house(), 1000, 90).unwrap();
    assert_eq!(out.transferred, 1090);
    assert!(out.created_order);
    assert!(!out.public_seeds);
    assert_eq!(out.fee_payer.bytes, key(2).bytes);
    assert_eq!(state.escrow_balance, 1090);
    assert!(state.has_order(&OrderId { wallet: key(5), buyer_price: 1000, token_size: 2 }));
}

#[test]
fn intake_is_idempotent() {
    let mut state = fresh_state();
    let first = intake(&mut state, &house(), 1000, 90).unwrap();
    assert_eq!(first.transferred, 1090);
    assert!(first.created_order);
    let record_count = state.orders.len();
    let second = intake(&mut state, &house(), 1000, 90).unwrap();
    assert_eq!(second.transferred, 0);
    assert!(!second.created_order);
    assert_eq!(state.escrow_balance, 1090);
    assert_eq!(state.orders.len(), record_count);
}

#[test]
fn intake_tops_up_only_the_shortfall() {
    let mut state = MarketState { escrow_balance: 700, orders: Vec::new() };
    let out = intake(&mut state, &house(), 1000, 90).unwrap();
    assert_eq!(out.transferred, 390);
    assert_eq!(state.escrow_balance, 1090);
}

#[test]
fn intake_without_auctioneer_fails() {
    let mut state = fresh_state();
    let mut h = house();
    h.has_auctioneer = false;
    assert_eq!(intake(&mut state, &h, 1000, 90), Err(MyError::NoAuctioneerProgramSet));
    assert_eq!(state.escrow_balance, 0);
    assert_eq!(state.orders.len(), 0);
}

#[test]
fn intake_invalid_auctioneer_fails() {
    let mut state = fresh_state();
    let mut h = house();
    h.auctioneer_address = key(9);
    assert_eq!(intake(&mut state, &h, 1000, 90), Err(MyError::InvalidAuctioneer));
}

#[test]
fn intake_bump_mismatch_fails() {
    let mut state = fresh_state();
    let r = auctioneer_place_order_logic(
        &mut state,
        &house(),
        &key(4),
        &pda(),
        &key(5),
        &key(5),
        7,
        8,
        1000,
        2,
        false,
        true,
        90,
        true,
        9, // canonical escrow bump differs from the presented one
        7,
    );
    assert_eq!(r, Err(MyError::BumpSeedMismatch));
}

#[test]
fn intake_native_payment_must_come_from_wallet() {
    let mut state = fresh_state();
    let r = auctioneer_place_order_logic(
        &mut state,
        &house(),
        &key(4),
        &pda(),
        &key(5),
        &key(6), // payment account differs from the buyer's wallet
        7,
        8,
        1000,
        2,
        false,
        true,
        90,
        true,
        8,
        7,
    );
    assert_eq!(r, Err(MyError::PublicKeyMismatch));
}

#[test]
fn intake_escrow_total_overflow_fails() {
    let mut state = fresh_state();
    assert_eq!(intake(&mut state, &house(), u64::MAX, 1), Err(MyError::NumericalOverflow));
}

#[test]
fn intake_metadata_mismatch_fails() {
    let mut state = fresh_state();
    let r = auctioneer_place_order_logic(
        &mut state,
        &house(),
        &key(4),
        &pda(),
        &key(5),
        &key(5),
        7,
        8,
        1000,
        2,
        false,
        true,
        90,
        false, // metadata linkage broken
        8,
        7,
    );
    assert_eq!(r, Err(MyError::MetadataMismatch));
    assert_eq!(state.escrow_balance, 0);
}

#[test]
fn intake_token_denomination_ignores_rent_floor() {
    let mut state = MarketState { escrow_balance: 400, orders: Vec::new() };
    let r = auctioneer_place_order_logic(
        &mut state,
        &house(),
        &key(4),
        &pda(),
        &key(5),
        &key(6), // transfer authority path: no wallet equality demanded
        7,
        8,
        1000,
        2,
        false,
        false, // fungible-token denomination
        90,
        true,
        8,
        7,
    )
    .unwrap();
    assert_eq!(r.transferred, 600);
    assert_eq!(state.escrow_balance, 1000);
}

fn listing() -> ListingConfig {
    ListingConfig {
        token_size: 100,
        items_sold: 0,
        start_price: 1000,
        decay_const: 1,
        scale_factor: 2,
        first_init_timestamp: 0,
        end_timestamp: 1000,
        bump: 255,
    }
}

fn buy(state: &mut MarketState, cfg: &ListingConfig, now: i64) -> Result<gda::order::OrderOutcome, MyError> {
    place_order(
        state,
        cfg,
        now,
        2,
        &house(),
        &key(4),
        &pda(),
        &key(5),
        &key(5),
        7,
        8,
        true,
        90,
        true,
        8,
        7,
    )
}

#[test]
fn place_order_quotes_price_and_escrows_it() {
    let mut state = fresh_state();
    let cfg = listing();
    let out = buy(&mut state, &cfg, 0).unwrap();
    // price for q=2 at t=0: 1000 * (2^2 - 1) = 3000, plus the rent floor
    assert_eq!(out.transferred, 3090);
    assert!(out.created_order);
    assert_eq!(state.escrow_balance, 3090);
    assert!(state.has_order(&OrderId { wallet: key(5), buyer_price: 3000, token_size: 2 }));
}

#[test]
fn place_order_rejects_before_start() {
    let mut state = fresh_state();
    let mut cfg = listing();
    cfg.first_init_timestamp = 100;
    assert_eq!(buy(&mut state, &cfg, 99), Err(MyError::AuctionNotStarted));
    assert_eq!(state.orders.len(), 0);
}

#[test]
fn place_order_rejects_after_end() {
    let mut state = fresh_state();
    let cfg = listing();
    assert_eq!(buy(&mut state, &cfg, 1001), Err(MyError::AuctionEnded));
}

#[test]
fn place_order_rejects_sold_out() {
    let mut state = fresh_state();
    let mut cfg = listing();
    cfg.items_sold = cfg.token_size;
    assert_eq!(buy(&mut state, &cfg, 10), Err(MyError::AuctionEnded));
}

#[test]
fn place_order_propagates_pricing_overflow() {
    let mut state = fresh_state();
    let mut cfg = listing();
    cfg.scale_factor = 1; // zero denominator in the price formula
    assert_eq!(buy(&mut state, &cfg, 10), Err(MyError::NumericalOverflow));
}

#[test]
fn place_order_resubmission_is_idempotent() {
    let mut state = fresh_state();
    let cfg = listing();
    let first = buy(&mut state, &cfg, 0).unwrap();
    assert!(first.created_order);
    let second = buy(&mut state, &cfg, 0).unwrap();
    assert_eq!(second.transferred, 0);
    assert!(!second.created_order);
    assert_eq!(state.escrow_balance, 3090);
    assert_eq!(state.orders.len(), 1);
}
