//! The library's laws: properties relating several operations, stated over
//! the model transitions and proved once and for all.

use crate::error::ReNFTError;
use crate::model::{
    account_amount, acct_idx, acct_key_matches, asset_of, conclude_t, dao_key_matches,
    has_account, has_asset, has_dao, has_listing, has_mkt, lemma_acct_idx_is,
    lemma_list_preserves_wf, lemma_listing_idx_is, lemma_mkt_lookup_congr, lemma_rent_preserves_wf,
    list_t, listing_idx, listing_key_matches, listing_of, mkt_admin, rent_t, wf, whitelist_t,
    withdraw_t, DaoModel, ListingModel, MarketModel,
};
use crate::state::{Pubkey, RentalState};
use vstd::prelude::*;

verus! {

/// Every active listing's window spans exactly its rental duration, and the
/// window bounds and renter are a single tagged state: they can never be
/// observed partially populated.
pub proof fn lemma_active_window(m: MarketModel, i: int)
    requires
        wf(m),
        0 <= i < m.listings.len(),
        m.listings[i].rental is Active,
    ensures
        m.listings[i].rental->rental_end == m.listings[i].rental->rental_start
            + m.listings[i].rental_duration,
{
}

/// Whitelisting is unique per (marketplace, collection): after one call
/// succeeds, a second call for the same pair by the same administrator fails
/// with `DaoAlreadyWhitelisted` and leaves the whitelist unchanged.
pub proof fn lemma_whitelist_dao_unique(
    m: MarketModel,
    caller: Pubkey,
    name: Seq<char>,
    dao_authority1: Pubkey,
    dao_authority2: Pubkey,
    collection_mint: Pubkey,
)
    requires
        wf(m),
        has_mkt(m, name),
        whitelist_t(m, caller, name, dao_authority1, collection_mint).1 is Ok,
    ensures
        ({
            let m1 = whitelist_t(m, caller, name, dao_authority1, collection_mint).0;
            let second = whitelist_t(m1, caller, name, dao_authority2, collection_mint);
            &&& second.1 == Err::<(), ReNFTError>(ReNFTError::DaoAlreadyWhitelisted)
            &&& second.0 == m1
            &&& second.0.daos.len() == m1.daos.len()
        }),
{
    let m1 = whitelist_t(m, caller, name, dao_authority1, collection_mint).0;
    let d = DaoModel { marketplace_name: name, dao_authority: dao_authority1, collection_mint };
    assert(m1.daos[m.daos.len() as int] == d);
    assert(dao_key_matches(m1.daos[m.daos.len() as int], name, collection_mint));
    assert(has_dao(m1, name, collection_mint));
    lemma_mkt_lookup_congr(m, m1, name);
    assert(caller == mkt_admin(m1, name));
}

/// A listing attempt whose asset has no whitelist entry for its collection
/// fails with `InvalidCollection` or `UnauthorizedSeller`, and nothing
/// changes: no listing, no vault, no balance movement. This holds for every
/// free (marketplace, asset) key; an occupied key fails earlier, with
/// `AlreadyExists`.
pub proof fn lemma_list_unwhitelisted_fails(
    m: MarketModel,
    caller: Pubkey,
    name: Seq<char>,
    mint: Pubkey,
    collection_mint: Pubkey,
    price: u64,
    rental_duration: i64,
)
    requires
        wf(m),
        !has_listing(m, name, mint),
        !has_asset(m, mint) || !has_dao(m, name, asset_of(m, mint).collection_mint),
    ensures
        ({
            let t = list_t(m, caller, name, mint, collection_mint, price, rental_duration);
            &&& t.0 == m
            &&& t.1 is Err
            &&& (t.1 == Err::<(), ReNFTError>(ReNFTError::InvalidCollection) || t.1 == Err::<
                (),
                ReNFTError,
            >(ReNFTError::UnauthorizedSeller))
        }),
{
}

/// Round trip: a successful listing followed by the seller's withdrawal
/// restores the ledger exactly as it was — the seller's balance returns to
/// its prior value and the listing record, with its vault, is gone.
pub proof fn lemma_list_withdraw_round_trip(
    m: MarketModel,
    caller: Pubkey,
    name: Seq<char>,
    mint: Pubkey,
    collection_mint: Pubkey,
    price: u64,
    rental_duration: i64,
)
    requires
        wf(m),
        has_mkt(m, name),
        price > 0,
        rental_duration > 0,
        list_t(m, caller, name, mint, collection_mint, price, rental_duration).1 is Ok,
    ensures
        ({
            let m1 = list_t(m, caller, name, mint, collection_mint, price, rental_duration).0;
            let m2 = withdraw_t(m1, name, mint);
            &&& has_listing(m1, name, mint)
            &&& listing_of(m1, name, mint).rental is Idle
            &&& listing_of(m1, name, mint).seller == caller
            &&& m2 == m
            &&& account_amount(m2, caller, mint) == account_amount(m, caller, mint)
            &&& !has_listing(m2, name, mint)
        }),
{
    lemma_list_preserves_wf(m, caller, name, mint, collection_mint, price, rental_duration);
    let m1 = list_t(m, caller, name, mint, collection_mint, price, rental_duration).0;
    let nl = ListingModel {
        marketplace_name: name,
        seller: caller,
        mint_address: mint,
        price,
        rental_duration,
        rental: RentalState::Idle,
        vault_amount: 1,
    };
    let ai = acct_idx(m, caller, mint);
    assert(has_account(m, caller, mint));
    assert(acct_key_matches(m.accounts[ai], caller, mint));
    lemma_acct_idx_is(m, ai, caller, mint);
    assert(m.accounts[ai].amount == 1);
    assert(m1.listings[m.listings.len() as int] == nl);
    lemma_listing_idx_is(m1, m.listings.len() as int, name, mint);
    let li = listing_idx(m1, name, mint);
    assert(li == m.listings.len());
    lemma_acct_idx_is(m1, ai, caller, mint);
    let m2 = withdraw_t(m1, name, mint);
    assert forall|j: int| 0 <= j < m.listings.len() implies m2.listings[j] == m.listings[j] by {}
    assert(m2.listings =~= m.listings);
    assert(m1.accounts[ai].amount == 0);
    assert(m2.accounts[ai] == m.accounts[ai]);
    assert(m2.accounts =~= m.accounts);
    assert(m2 =~= m);
}

/// Two creations racing for the same (marketplace, asset) key cannot both
/// succeed: after one listing is created, a second attempt at the same key
/// fails with `AlreadyExists` and changes nothing.
pub proof fn lemma_second_listing_fails(
    m: MarketModel,
    caller1: Pubkey,
    caller2: Pubkey,
    name: Seq<char>,
    mint: Pubkey,
    collection_mint1: Pubkey,
    collection_mint2: Pubkey,
    price1: u64,
    price2: u64,
    rental_duration1: i64,
    rental_duration2: i64,
)
    requires
        wf(m),
        has_mkt(m, name),
        price1 > 0,
        rental_duration1 > 0,
        list_t(m, caller1, name, mint, collection_mint1, price1, rental_duration1).1 is Ok,
    ensures
        ({
            let m1 = list_t(m, caller1, name, mint, collection_mint1, price1, rental_duration1).0;
            let second = list_t(
                m1,
                caller2,
                name,
                mint,
                collection_mint2,
                price2,
                rental_duration2,
            );
            &&& second.1 == Err::<(), ReNFTError>(ReNFTError::AlreadyExists)
            &&& second.0 == m1
        }),
{
    let m1 = list_t(m, caller1, name, mint, collection_mint1, price1, rental_duration1).0;
    assert(listing_key_matches(m1.listings[m.listings.len() as int], name, mint));
    assert(has_listing(m1, name, mint));
}

/// A rental concluded at any point restores the ledger exactly as it stood
/// before the rental began: only the right to use changed hands, the asset
/// never left the vault and no record was created or removed.
pub proof fn lemma_rent_conclude_round_trip(
    m: MarketModel,
    renter: Pubkey,
    name: Seq<char>,
    mint: Pubkey,
    now: i64,
)
    requires
        wf(m),
        has_listing(m, name, mint),
        (listing_of(m, name, mint).rental is Idle),
        now + listing_of(m, name, mint).rental_duration <= i64::MAX,
    ensures
        conclude_t(rent_t(m, renter, name, mint, now), name, mint) == m,
{
    lemma_rent_preserves_wf(m, renter, name, mint, now);
    let li = listing_idx(m, name, mint);
    assert(listing_key_matches(m.listings[li], name, mint));
    lemma_listing_idx_is(m, li, name, mint);
    let m1 = rent_t(m, renter, name, mint, now);
    lemma_listing_idx_is(m1, li, name, mint);
    let m2 = conclude_t(m1, name, mint);
    assert(m2.listings[li] == m.listings[li]);
    assert(m2.listings =~= m.listings);
    assert(m2 =~= m);
}

} // verus!
