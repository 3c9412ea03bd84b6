use renft::error::ReNFTError;
use renft::market::Market;
use renft::state::{RentalState, MAX_WHITELISTED_DAOS};

const ADMIN: u64 = 1;
const SELLER: u64 = 2;
const OUTSIDER: u64 = 3;
const RENTER: u64 = 9;
const DAO: u64 = 7;
const COLLECTION: u64 = 500;
const ASSET: u64 = 900;

fn market_with_whitelisted_collection() -> (Market, String) {
    let mut mk = Market::new();
    let name = String::from("M");
    assert_eq!(mk.initialize(ADMIN, &name, 250), Ok(()));
    assert_eq!(mk.whitelist_dao(ADMIN, &name, DAO, COLLECTION), Ok(()));
    assert_eq!(mk.register_asset(SELLER, ASSET, COLLECTION, true), Ok(()));
    (mk, name)
}

#[test]
fn scenario_admin_whitelists_and_seller_lists() {
    let (mut mk, name) = market_with_whitelisted_collection();
    assert_eq!(mk.marketplace_admin(&name), Some(ADMIN));
    assert_eq!(mk.marketplace_fee(&name), Some(250));
    assert!(mk.is_whitelisted(&name, COLLECTION));
    assert_eq!(mk.balance_of(SELLER, ASSET), 1);

    assert_eq!(mk.list(SELLER, &name, ASSET, COLLECTION, 1000, 86400), Ok(()));

    assert_eq!(mk.vault_balance(&name, ASSET), 1);
    assert_eq!(mk.balance_of(SELLER, ASSET), 0);
    let info = mk.get_listing(&name, ASSET).expect("listing must exist");
    assert_eq!(info.seller, SELLER);
    assert_eq!(info.mint_address, ASSET);
    assert_eq!(info.price, 1000);
    assert_eq!(info.rental_duration, 86400);
    assert_eq!(info.rental, RentalState::Idle);
}

#[test]
fn scenario_unwhitelisted_collection_rejected() {
    let mut mk = Market::new();
    let name = String::from("M");
    assert_eq!(mk.initialize(ADMIN, &name, 250), Ok(()));
    let other_collection: u64 = 600;
    let other_asset: u64 = 901;
    assert_eq!(mk.register_asset(SELLER, other_asset, other_collection, true), Ok(()));

    let r = mk.list(SELLER, &name, other_asset, other_collection, 1000, 86400);
    assert_eq!(r, Err(ReNFTError::UnauthorizedSeller));

    assert_eq!(mk.vault_balance(&name, other_asset), 0);
    assert_eq!(mk.listing_count(), 0);
    assert_eq!(mk.balance_of(SELLER, other_asset), 1);
}

#[test]
fn scenario_non_admin_cannot_whitelist() {
    let mut mk = Market::new();
    let name = String::from("M");
    assert_eq!(mk.initialize(ADMIN, &name, 250), Ok(()));

    let r = mk.whitelist_dao(OUTSIDER, &name, DAO, COLLECTION);
    assert_eq!(r, Err(ReNFTError::UnauthorizedSeller));

    assert_eq!(mk.whitelist_size(), 0);
    assert!(!mk.is_whitelisted(&name, COLLECTION));
}

#[test]
fn duplicate_whitelist_rejected() {
    let mut mk = Market::new();
    let name = String::from("M");
    assert_eq!(mk.initialize(ADMIN, &name, 250), Ok(()));
    assert_eq!(mk.whitelist_dao(ADMIN, &name, DAO, COLLECTION), Ok(()));

    let r = mk.whitelist_dao(ADMIN, &name, 8, COLLECTION);
    assert_eq!(r, Err(ReNFTError::DaoAlreadyWhitelisted));
    assert_eq!(mk.whitelist_size(), 1);
}

#[test]
fn duplicate_marketplace_rejected() {
    let mut mk = Market::new();
    let name = String::from("M");
    assert_eq!(mk.initialize(ADMIN, &name, 250), Ok(()));
    assert_eq!(mk.initialize(OUTSIDER, &name, 100), Err(ReNFTError::AlreadyExists));
    assert_eq!(mk.marketplace_admin(&name), Some(ADMIN));
    assert_eq!(mk.marketplace_fee(&name), Some(250));
}

#[test]
fn two_marketplaces_coexist() {
    let mut mk = Market::new();
    let m1 = String::from("M");
    let m2 = String::from("N");
    assert_eq!(mk.initialize(ADMIN, &m1, 250), Ok(()));
    assert_eq!(mk.initialize(OUTSIDER, &m2, 100), Ok(()));
    assert_eq!(mk.marketplace_admin(&m1), Some(ADMIN));
    assert_eq!(mk.marketplace_admin(&m2), Some(OUTSIDER));
    assert_eq!(mk.marketplace_fee(&m2), Some(100));
}

#[test]
fn mismatched_collection_rejected() {
    let (mut mk, name) = market_with_whitelisted_collection();
    let wrong_collection: u64 = 555;
    let r = mk.list(SELLER, &name, ASSET, wrong_collection, 1000, 86400);
    assert_eq!(r, Err(ReNFTError::InvalidCollection));
    assert_eq!(mk.listing_count(), 0);
    assert_eq!(mk.balance_of(SELLER, ASSET), 1);
}

#[test]
fn unknown_asset_rejected() {
    let (mut mk, name) = market_with_whitelisted_collection();
    let ghost_asset: u64 = 999;
    let r = mk.list(SELLER, &name, ghost_asset, COLLECTION, 1000, 86400);
    assert_eq!(r, Err(ReNFTError::UnauthorizedSeller));
    assert_eq!(mk.listing_count(), 0);
}

#[test]
fn unverified_collection_rejected() {
    let mut mk = Market::new();
    let name = String::from("M");
    assert_eq!(mk.initialize(ADMIN, &name, 250), Ok(()));
    assert_eq!(mk.whitelist_dao(ADMIN, &name, DAO, COLLECTION), Ok(()));
    assert_eq!(mk.register_asset(SELLER, ASSET, COLLECTION, false), Ok(()));

    let r = mk.list(SELLER, &name, ASSET, COLLECTION, 1000, 86400);
    assert_eq!(r, Err(ReNFTError::UnauthorizedSeller));
    assert_eq!(mk.vault_balance(&name, ASSET), 0);
}

#[test]
fn occupied_listing_key_rejected() {
    let (mut mk, name) = market_with_whitelisted_collection();
    assert_eq!(mk.list(SELLER, &name, ASSET, COLLECTION, 1000, 86400), Ok(()));
    let r = mk.list(SELLER, &name, ASSET, COLLECTION, 2000, 86400);
    assert_eq!(r, Err(ReNFTError::AlreadyExists));
    assert_eq!(mk.listing_count(), 1);
}

#[test]
fn listing_requires_ownership() {
    let (mut mk, name) = market_with_whitelisted_collection();
    let r = mk.list(OUTSIDER, &name, ASSET, COLLECTION, 1000, 86400);
    assert_eq!(r, Err(ReNFTError::UnauthorizedSeller));
    assert_eq!(mk.listing_count(), 0);
    assert_eq!(mk.balance_of(SELLER, ASSET), 1);
}

#[test]
fn round_trip_list_then_withdraw() {
    let (mut mk, name) = market_with_whitelisted_collection();
    assert_eq!(mk.balance_of(SELLER, ASSET), 1);
    assert_eq!(mk.list(SELLER, &name, ASSET, COLLECTION, 1000, 86400), Ok(()));
    assert_eq!(mk.balance_of(SELLER, ASSET), 0);

    mk.withdraw(SELLER, &name, ASSET);

    assert_eq!(mk.balance_of(SELLER, ASSET), 1);
    assert!(mk.get_listing(&name, ASSET).is_none());
    assert_eq!(mk.vault_balance(&name, ASSET), 0);
    assert_eq!(mk.listing_count(), 0);

    // the key is free again
    assert_eq!(mk.list(SELLER, &name, ASSET, COLLECTION, 1200, 3600), Ok(()));
}

#[test]
fn rent_sets_exact_window_and_splits_payment() {
    let (mut mk, name) = market_with_whitelisted_collection();
    assert_eq!(mk.list(SELLER, &name, ASSET, COLLECTION, 1000, 86400), Ok(()));

    let (seller_share, fee_share) = mk.rent(RENTER, &name, ASSET, 1000, 100);
    assert_eq!(fee_share, 25); // 1000 * 250 / 10000
    assert_eq!(seller_share, 975);

    let info = mk.get_listing(&name, ASSET).expect("listing must exist");
    assert_eq!(
        info.rental,
        RentalState::Active { rental_start: 100, rental_end: 86500, current_renter: RENTER },
    );
    // the asset never leaves the vault while rented
    assert_eq!(mk.vault_balance(&name, ASSET), 1);
    assert_eq!(mk.balance_of(SELLER, ASSET), 0);
}

#[test]
fn conclude_after_window_returns_to_idle() {
    let (mut mk, name) = market_with_whitelisted_collection();
    assert_eq!(mk.list(SELLER, &name, ASSET, COLLECTION, 1000, 86400), Ok(()));
    mk.rent(RENTER, &name, ASSET, 1000, 100);

    mk.conclude_rental(OUTSIDER, &name, ASSET, 86500);

    let info = mk.get_listing(&name, ASSET).expect("listing must exist");
    assert_eq!(info.rental, RentalState::Idle);
    assert_eq!(mk.vault_balance(&name, ASSET), 1);

    // afterwards the seller can withdraw
    mk.withdraw(SELLER, &name, ASSET);
    assert_eq!(mk.balance_of(SELLER, ASSET), 1);
}

#[test]
fn renter_may_return_early() {
    let (mut mk, name) = market_with_whitelisted_collection();
    assert_eq!(mk.list(SELLER, &name, ASSET, COLLECTION, 1000, 86400), Ok(()));
    mk.rent(RENTER, &name, ASSET, 1000, 100);

    mk.conclude_rental(RENTER, &name, ASSET, 200);

    let info = mk.get_listing(&name, ASSET).expect("listing must exist");
    assert_eq!(info.rental, RentalState::Idle);
    assert_eq!(mk.vault_balance(&name, ASSET), 1);
}

#[test]
fn zero_fee_marketplace_routes_full_payment() {
    let mut mk = Market::new();
    let name = String::from("free");
    assert_eq!(mk.initialize(ADMIN, &name, 0), Ok(()));
    assert_eq!(mk.whitelist_dao(ADMIN, &name, DAO, COLLECTION), Ok(()));
    assert_eq!(mk.register_asset(SELLER, ASSET, COLLECTION, true), Ok(()));
    assert_eq!(mk.list(SELLER, &name, ASSET, COLLECTION, 777, 60), Ok(()));

    let (seller_share, fee_share) = mk.rent(RENTER, &name, ASSET, 777, 0);
    assert_eq!(seller_share, 777);
    assert_eq!(fee_share, 0);
}

#[test]
fn whitelist_capacity_is_enforced() {
    let mut mk = Market::new();
    let name = String::from("M");
    assert_eq!(mk.initialize(ADMIN, &name, 250), Ok(()));
    for c in 0..MAX_WHITELISTED_DAOS as u64 {
        assert_eq!(mk.whitelist_dao(ADMIN, &name, DAO, 10_000 + c), Ok(()));
    }
    let r = mk.whitelist_dao(ADMIN, &name, DAO, 99_999);
    assert_eq!(r, Err(ReNFTError::DaoListFull));
    assert_eq!(mk.whitelist_size(), MAX_WHITELISTED_DAOS);
}

#[test]
fn duplicate_asset_rejected() {
    let mut mk = Market::new();
    assert_eq!(mk.register_asset(SELLER, ASSET, COLLECTION, true), Ok(()));
    let r = mk.register_asset(OUTSIDER, ASSET, COLLECTION, true);
    assert_eq!(r, Err(ReNFTError::AlreadyExists));
    assert_eq!(mk.balance_of(SELLER, ASSET), 1);
    assert_eq!(mk.balance_of(OUTSIDER, ASSET), 0);
}

#[test]
fn empty_market_lookups() {
    let mk = Market::new();
    let name = String::from("M");
    assert_eq!(mk.marketplace_admin(&name), None);
    assert_eq!(mk.marketplace_fee(&name), None);
    assert!(!mk.is_whitelisted(&name, COLLECTION));
    assert!(mk.get_listing(&name, ASSET).is_none());
    assert_eq!(mk.balance_of(SELLER, ASSET), 0);
    assert_eq!(mk.vault_balance(&name, ASSET), 0);
    assert_eq!(mk.whitelist_size(), 0);
    assert_eq!(mk.listing_count(), 0);
}
