//! Order intake and escrow orchestration.
//!
//! The host platform moves the funds and allocates the records; this
//! module makes every decision: whether the caller is authorized, which
//! principal pays the allocation fees, how much must still be moved into
//! escrow (only ever the shortfall), and whether a fresh order record is
//! owed. The durable effects are modeled as a [`MarketState`] — the escrow
//! balance and the set of existing order records — so that resubmitting an
//! identical order is provably a no-op.

use vstd::prelude::*;
use crate::listing::ListingConfig;
use crate::math::MyError;
use crate::util::{
    AuctionHouse,
    Auctioneer,
    Pubkey,
    assert_keys_equal,
    assert_valid_auctioneer,
    spec_auction_active,
    assert_auction_active,
    valid_auctioneer_chain,
};

verus! {

/// Identity of an order record: one record may exist per
/// (buyer, price, quantity) tuple within an auction.
#[derive(Clone, Copy, Debug)]
pub struct OrderId {
    pub wallet: Pubkey,
    pub buyer_price: u64,
    pub token_size: u64,
}

impl View for OrderId {
    type V = (Seq<u8>, u64, u64);

    open spec fn view(&self) -> (Seq<u8>, u64, u64) {
        (self.wallet@, self.buyer_price, self.token_size)
    }
}

/// The durable state an order-intake call may change: the buyer's escrow
/// balance and the set of open order records.
#[derive(Clone, Debug)]
pub struct MarketState {
    /// Balance held in the buyer's escrow account, in the treasury
    /// denomination.
    pub escrow_balance: u64,
    /// The order records that exist.
    pub orders: Vec<OrderId>,
}

impl MarketState {
    /// Whether an order record exists for a (buyer, price, quantity)
    /// identity.
    pub open spec fn spec_has_order(self, id: (Seq<u8>, u64, u64)) -> bool {
        exists|i: int| 0 <= i < self.orders@.len() && self.orders@[i]@ == id
    }

    /// Whether an order record exists for this identity.
    pub fn has_order(&self, id: &OrderId) -> (r: bool)
        ensures
            r <==> self.spec_has_order(id@),
    {
        let n = self.orders.len();
        let mut i: usize = 0;
        while i < n
            invariant
                n == self.orders@.len(),
                0 <= i <= n,
                forall|j: int| 0 <= j < i ==> self.orders@[j]@ != id@,
            decreases n - i,
        {
            let o = &self.orders[i];
            if assert_keys_equal(o.wallet, id.wallet).is_ok() && o.buyer_price == id.buyer_price
                && o.token_size == id.token_size {
                return true;
            }
            i = i + 1;
        }
        false
    }
}

/// The actions an accepted order-intake call decided on; the host carries
/// them out.
#[derive(Clone, Copy, Debug, PartialEq, Eq)]
pub struct OrderOutcome {
    /// The principal who pays allocation fees.
    pub fee_payer: Pubkey,
    /// The shortfall moved into escrow; zero when the balance already
    /// sufficed.
    pub transferred: u64,
    /// Whether a fresh order record was allocated.
    pub created_order: bool,
    /// Whether the record's derivation uses the public seed layout.
    pub public_seeds: bool,
}

/// Which principal pays the allocation fees: the buyer's wallet when the
/// house's policy requires its authority's off-chain sign-off, the house
/// authority itself otherwise.
pub fn choose_fee_payer(requires_sign_off: bool, wallet: &Pubkey, authority: &Pubkey) -> (r:
    Pubkey)
    ensures
        requires_sign_off ==> r@ == wallet@,
        !requires_sign_off ==> r@ == authority@,
{
    if requires_sign_off {
        *wallet
    } else {
        *authority
    }
}

/// The full admission decision of an order-intake call, in the order the
/// checks run: delegation enabled, delegate chain valid, both presented
/// salts canonical, a native payment drawn from the buyer's own wallet,
/// the required escrow total representable, and the asset's metadata
/// linkage intact.
pub open spec fn spec_intake_check(
    auction_house: AuctionHouse,
    auctioneer_authority: Pubkey,
    ah_auctioneer_pda: Auctioneer,
    wallet: Pubkey,
    payment_account: Pubkey,
    trade_state_bump: u8,
    escrow_payment_bump: u8,
    buyer_price: u64,
    is_native: bool,
    rent_minimum: u64,
    metadata_valid: bool,
    escrow_canonical_bump: u8,
    trade_state_canonical_bump: u8,
) -> Result<(), MyError> {
    if !auction_house.has_auctioneer {
        Err(MyError::NoAuctioneerProgramSet)
    } else if !valid_auctioneer_chain(auction_house, auctioneer_authority, ah_auctioneer_pda) {
        Err(MyError::InvalidAuctioneer)
    } else if escrow_canonical_bump != escrow_payment_bump || trade_state_canonical_bump
        != trade_state_bump {
        Err(MyError::BumpSeedMismatch)
    } else if is_native && wallet@ != payment_account@ {
        Err(MyError::PublicKeyMismatch)
    } else if is_native && buyer_price + rent_minimum > u64::MAX {
        Err(MyError::NumericalOverflow)
    } else if !metadata_valid {
        Err(MyError::MetadataMismatch)
    } else {
        Ok(())
    }
}

/// The escrow total an accepted order must be backed by: the price, plus
/// the rent-exempt floor when the denomination is native.
pub open spec fn spec_needed(is_native: bool, buyer_price: u64, rent_minimum: u64) -> int {
    buyer_price + if is_native {
        rent_minimum as int
    } else {
        0
    }
}

/// The amount an intake call transfers into escrow: exactly the shortfall,
/// never more.
pub open spec fn spec_transfer(balance: u64, needed: int) -> int {
    if balance < needed {
        needed - balance
    } else {
        0
    }
}

/// The escrow balance after an accepted intake call.
pub open spec fn spec_balance_after(balance: u64, needed: int) -> int {
    if balance < needed {
        needed
    } else {
        balance as int
    }
}

/// What a completed order-intake call guarantees, relating the state
/// before (`pre`) and after (`post`) to its result: on any error the
/// admission decision names that error and nothing changed; on success the
/// fee payer follows the house's sign-off policy, exactly the escrow
/// shortfall was transferred, and the order record for this
/// (buyer, price, quantity) identity exists — freshly created only if it
/// was absent.
pub open spec fn intake_post(
    pre: MarketState,
    post: MarketState,
    r: Result<OrderOutcome, MyError>,
    auction_house: AuctionHouse,
    auctioneer_authority: Pubkey,
    ah_auctioneer_pda: Auctioneer,
    wallet: Pubkey,
    payment_account: Pubkey,
    trade_state_bump: u8,
    escrow_payment_bump: u8,
    buyer_price: u64,
    token_size: u64,
    public: bool,
    is_native: bool,
    rent_minimum: u64,
    metadata_valid: bool,
    escrow_canonical_bump: u8,
    trade_state_canonical_bump: u8,
) -> bool {
    let check = spec_intake_check(
        auction_house,
        auctioneer_authority,
        ah_auctioneer_pda,
        wallet,
        payment_account,
        trade_state_bump,
        escrow_payment_bump,
        buyer_price,
        is_native,
        rent_minimum,
        metadata_valid,
        escrow_canonical_bump,
        trade_state_canonical_bump,
    );
    let needed = spec_needed(is_native, buyer_price, rent_minimum);
    let id = (wallet@, buyer_price, token_size);
    match r {
        Err(e) => {
            &&& check == Err::<(), MyError>(e)
            &&& post == pre
        },
        Ok(out) => {
            &&& check is Ok
            &&& (auction_house.requires_sign_off ==> out.fee_payer@ == wallet@)
            &&& (!auction_house.requires_sign_off ==> out.fee_payer@ == auction_house.authority@)
            &&& out.transferred == spec_transfer(pre.escrow_balance, needed)
            &&& post.escrow_balance == spec_balance_after(pre.escrow_balance, needed)
            &&& out.created_order == !pre.spec_has_order(id)
            &&& post.spec_has_order(id)
            &&& post.orders@ == if pre.spec_has_order(id) {
                pre.orders@
            } else {
                pre.orders@.push((OrderId { wallet, buyer_price, token_size }))
            }
            &&& out.public_seeds == public
        },
    }
}

/// Validate an order-intake call, top up the escrow by exactly the
/// shortfall, and create the buyer's order record if it does not exist
/// yet. On any error nothing changes; resubmitting an identical order
/// succeeds and moves nothing further.
pub fn auctioneer_place_order_logic(
    state: &mut MarketState,
    auction_house: &AuctionHouse,
    auctioneer_authority: &Pubkey,
    ah_auctioneer_pda: &Auctioneer,
    wallet: &Pubkey,
    payment_account: &Pubkey,
    trade_state_bump: u8,
    escrow_payment_bump: u8,
    buyer_price: u64,
    token_size: u64,
    public: bool,
    is_native: bool,
    rent_minimum: u64,
    metadata_valid: bool,
    escrow_canonical_bump: u8,
    trade_state_canonical_bump: u8,
) -> (r: Result<OrderOutcome, MyError>)
    ensures
        intake_post(
            *old(state),
            *final(state),
            r,
            *auction_house,
            *auctioneer_authority,
            *ah_auctioneer_pda,
            *wallet,
            *payment_account,
            trade_state_bump,
            escrow_payment_bump,
            buyer_price,
            token_size,
            public,
            is_native,
            rent_minimum,
            metadata_valid,
            escrow_canonical_bump,
            trade_state_canonical_bump,
        ),
{
    if !auction_house.has_auctioneer {
        return Err(MyError::NoAuctioneerProgramSet);
    }
    if let Err(_) = assert_valid_auctioneer(auction_house, auctioneer_authority, ah_auctioneer_pda
    ) {
        return Err(MyError::InvalidAuctioneer);
    }
    if escrow_canonical_bump != escrow_payment_bump || trade_state_canonical_bump
        != trade_state_bump {
        return Err(MyError::BumpSeedMismatch);
    }
    let fee_payer = choose_fee_payer(
        auction_house.requires_sign_off,
        wallet,
        &auction_house.authority,
    );
    let needed: u64;
    if is_native {
        if let Err(_) = assert_keys_equal(*wallet, *payment_account) {
            return Err(MyError::PublicKeyMismatch);
        }
        needed = match buyer_price.checked_add(rent_minimum) {
            Some(n) => n,
            None => {
                return Err(MyError::NumericalOverflow);
            },
        };
    } else {
        needed = buyer_price;
    }
    if !metadata_valid {
        return Err(MyError::MetadataMismatch);
    }
    let transferred: u64 = if state.escrow_balance < needed {
        let diff = needed - state.escrow_balance;
        state.escrow_balance = needed;
        diff
    } else {
        0
    };
    let id = OrderId { wallet: *wallet, buyer_price, token_size };
    let created_order: bool;
    if state.has_order(&id) {
        created_order = false;
    } else {
        created_order = true;
        state.orders.push(id);
        proof {
            let n = state.orders@.len() - 1;
            assert(state.orders@[n]@ == id@);
            assert(state.spec_has_order(id@));
        }
    }
    Ok(OrderOutcome { fee_payer, transferred, created_order, public_seeds: public })
}

/// The buy path: admit the order only while the auction is active, quote
/// the cumulative price for `order_size` units at time `now`, then run the
/// escrow and record orchestration on that price. Every guard failure and
/// arithmetic fault propagates unchanged; the state moves only on success.
pub fn place_order(
    state: &mut MarketState,
    listing_config: &ListingConfig,
    now: i64,
    order_size: u64,
    auction_house: &AuctionHouse,
    auctioneer_authority: &Pubkey,
    ah_auctioneer_pda: &Auctioneer,
    wallet: &Pubkey,
    payment_account: &Pubkey,
    trade_state_bump: u8,
    escrow_payment_bump: u8,
    is_native: bool,
    rent_minimum: u64,
    metadata_valid: bool,
    escrow_canonical_bump: u8,
    trade_state_canonical_bump: u8,
) -> (r: Result<OrderOutcome, MyError>)
    ensures
        match spec_auction_active(*listing_config, now) {
            Err(e) => r == Err::<OrderOutcome, MyError>(e) && *final(state) == *old(state),
            Ok(_) => match listing_config.spec_calculate_price(now, order_size) {
                Err(e) => r == Err::<OrderOutcome, MyError>(e) && *final(state) == *old(state),
                Ok(price) => intake_post(
                *old(state),
                *final(state),
                r,
                *auction_house,
                *auctioneer_authority,
                *ah_auctioneer_pda,
                *wallet,
                *payment_account,
                trade_state_bump,
                escrow_payment_bump,
                price,
                order_size,
                false,
                is_native,
                rent_minimum,
                metadata_valid,
                    escrow_canonical_bump,
                    trade_state_canonical_bump,
                ),
            },
        },
{
    if let Err(e) = assert_auction_active(listing_config, now) {
        return Err(e);
    }
    let cumulative_price = match listing_config.calculate_price(now, order_size) {
        Ok(p) => p,
        Err(e) => {
            return Err(e);
        },
    };
    auctioneer_place_order_logic(
        state,
        auction_house,
        auctioneer_authority,
        ah_auctioneer_pda,
        wallet,
        payment_account,
        trade_state_bump,
        escrow_payment_bump,
        cumulative_price,
        order_size,
        false,
        is_native,
        rent_minimum,
        metadata_valid,
        escrow_canonical_bump,
        trade_state_canonical_bump,
    )
}

/// Idempotence of order intake: once a call for a
/// (buyer, quantity, price) tuple has succeeded, submitting the identical
/// call again succeeds as well, transfers no further funds, creates no
/// further record, and leaves the state exactly as it was.
pub proof fn lemma_order_intake_idempotent(
    s0: MarketState,
    s1: MarketState,
    out1: OrderOutcome,
    s2: MarketState,
    r2: Result<OrderOutcome, MyError>,
    auction_house: AuctionHouse,
    auctioneer_authority: Pubkey,
    ah_auctioneer_pda: Auctioneer,
    wallet: Pubkey,
    payment_account: Pubkey,
    trade_state_bump: u8,
    escrow_payment_bump: u8,
    buyer_price: u64,
    token_size: u64,
    public: bool,
    is_native: bool,
    rent_minimum: u64,
    metadata_valid: bool,
    escrow_canonical_bump: u8,
    trade_state_canonical_bump: u8,
)
    requires
        intake_post(
            s0,
            s1,
            Ok(out1),
            auction_house,
            auctioneer_authority,
            ah_auctioneer_pda,
            wallet,
            payment_account,
            trade_state_bump,
            escrow_payment_bump,
            buyer_price,
            token_size,
            public,
            is_native,
            rent_minimum,
            metadata_valid,
            escrow_canonical_bump,
            trade_state_canonical_bump,
        ),
        intake_post(
            s1,
            s2,
            r2,
            auction_house,
            auctioneer_authority,
            ah_auctioneer_pda,
            wallet,
            payment_account,
            trade_state_bump,
            escrow_payment_bump,
            buyer_price,
            token_size,
            public,
            is_native,
            rent_minimum,
            metadata_valid,
            escrow_canonical_bump,
            trade_state_canonical_bump,
        ),
    ensures
        r2 is Ok,
        r2 matches Ok(out2) ==> out2.transferred == 0 && !out2.created_order,
        s2.escrow_balance == s1.escrow_balance,
        s2.orders@ == s1.orders@,
{
}

} // verus!
