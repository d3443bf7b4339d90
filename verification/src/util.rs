//! Lifecycle and authorization guards.
//!
//! Addresses are plain 32-byte values; the host's address-derivation
//! scheme is of no concern here. The guards validate the auction's
//! activity window and the three-way equality chain that lets a delegated
//! auctioneer act on a house's behalf.

use vstd::prelude::*;
use crate::listing::ListingConfig;
use crate::math::MyError;

verus! {

/// A 32-byte address of the host's account model, held as plain bytes.
#[derive(Clone, Copy, Debug, PartialEq, Eq)]
pub struct Pubkey {
    pub bytes: [u8; 32],
}

impl View for Pubkey {
    type V = Seq<u8>;

    open spec fn view(&self) -> Seq<u8> {
        self.bytes@
    }
}

impl Pubkey {
    pub fn new(bytes: [u8; 32]) -> (r: Self)
        ensures
            r@ == bytes@,
    {
        Pubkey { bytes }
    }
}

/// What the order-intake logic reads of the marketplace house record.
#[derive(Clone, Copy, Debug)]
pub struct AuctionHouse {
    /// The house's own address.
    pub key: Pubkey,
    /// The house authority's address.
    pub authority: Pubkey,
    /// Address of the house's registered delegate record.
    pub auctioneer_address: Pubkey,
    /// Whether third-party delegation is enabled for this house.
    pub has_auctioneer: bool,
    /// Whether the house's policy requires off-chain sign-off from its
    /// authority before a buyer-paid order.
    pub requires_sign_off: bool,
}

/// The delegate record linking an auctioneer authority to a house.
#[derive(Clone, Copy, Debug)]
pub struct Auctioneer {
    /// The record's own address.
    pub key: Pubkey,
    /// The delegated authority registered in the record.
    pub auctioneer_authority: Pubkey,
    /// The house registered in the record.
    pub auction_house: Pubkey,
}

/// Byte-for-byte address comparison.
pub fn assert_keys_equal(key1: Pubkey, key2: Pubkey) -> (r: Result<(), MyError>)
    ensures
        r is Ok <==> key1@ == key2@,
        r is Err ==> r == Err::<(), MyError>(MyError::PublicKeyMismatch),
{
    let mut i: usize = 0;
    while i < 32
        invariant
            0 <= i <= 32,
            forall|j: int| 0 <= j < i ==> key1@[j] == key2@[j],
        decreases 32 - i,
    {
        if key1.bytes[i] != key2.bytes[i] {
            return Err(MyError::PublicKeyMismatch);
        }
        i = i + 1;
    }
    proof {
        assert(key1@ =~= key2@);
    }
    Ok(())
}

/// Whether the auction accepts orders at time `now`: it has started, has
/// not passed its close time, and has supply left.
pub open spec fn spec_auction_active(listing_config: ListingConfig, now: i64) -> Result<
    (),
    MyError,
> {
    if now < listing_config.first_init_timestamp {
        Err(MyError::AuctionNotStarted)
    } else if now > listing_config.end_timestamp || listing_config.items_sold
        == listing_config.token_size {
        Err(MyError::AuctionEnded)
    } else {
        Ok(())
    }
}

/// Guard of the buy path: fails with `AuctionNotStarted` before genesis,
/// with `AuctionEnded` past the close time or once the supply is sold out.
pub fn assert_auction_active(listing_config: &ListingConfig, now: i64) -> (r: Result<(), MyError>)
    ensures
        r == spec_auction_active(*listing_config, now),
{
    if now < listing_config.first_init_timestamp {
        return Err(MyError::AuctionNotStarted);
    }
    if now > listing_config.end_timestamp || listing_config.items_sold
        == listing_config.token_size {
        return Err(MyError::AuctionEnded);
    }
    Ok(())
}

/// Whether the auction is over at time `now`.
pub open spec fn spec_auction_over(listing_config: ListingConfig, now: i64) -> Result<(), MyError> {
    if now < listing_config.end_timestamp {
        Err(MyError::AuctionActive)
    } else {
        Ok(())
    }
}

/// Guard of the closure flows: fails with `AuctionActive` until the close
/// time is reached.
pub fn assert_auction_over(listing_config: &ListingConfig, now: i64) -> (r: Result<(), MyError>)
    ensures
        r == spec_auction_over(*listing_config, now),
{
    if now < listing_config.end_timestamp {
        return Err(MyError::AuctionActive);
    }
    Ok(())
}

/// The three-way equality chain that authorizes a delegated auctioneer:
/// the house points at the presented record, the record names the caller's
/// authority, and the record points back at the house.
pub open spec fn valid_auctioneer_chain(
    auction_house_instance: AuctionHouse,
    auctioneer_authority: Pubkey,
    auctioneer_pda: Auctioneer,
) -> bool {
    &&& auction_house_instance.auctioneer_address@ == auctioneer_pda.key@
    &&& auctioneer_pda.auctioneer_authority@ == auctioneer_authority@
    &&& auctioneer_pda.auction_house@ == auction_house_instance.key@
}

/// Authorization gate of the order flows: any break in the delegate chain
/// fails with `InvalidAuctioneer`.
pub fn assert_valid_auctioneer(
    auction_house_instance: &AuctionHouse,
    auctioneer_authority: &Pubkey,
    auctioneer_pda: &Auctioneer,
) -> (r: Result<(), MyError>)
    ensures
        r is Ok <==> valid_auctioneer_chain(
            *auction_house_instance,
            *auctioneer_authority,
            *auctioneer_pda,
        ),
        r is Err ==> r == Err::<(), MyError>(MyError::InvalidAuctioneer),
{
    if assert_keys_equal(auction_house_instance.auctioneer_address, auctioneer_pda.key).is_err() {
        return Err(MyError::InvalidAuctioneer);
    }
    if assert_keys_equal(auctioneer_pda.auctioneer_authority, *auctioneer_authority).is_err() {
        return Err(MyError::InvalidAuctioneer);
    }
    if assert_keys_equal(auctioneer_pda.auction_house, auction_house_instance.key).is_err() {
        return Err(MyError::InvalidAuctioneer);
    }
    Ok(())
}

} // verus!
