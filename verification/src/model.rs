//! The mathematical model of the marketplace ledger.
//!
//! The host ledger's deterministic record addressing is modelled as explicit
//! keyed tables: one sequence per record family, with uniqueness of each
//! family's key as part of well-formedness. Every operation of the library is
//! specified as a transition function on this model; the executable code in
//! `market` is proved to follow these transitions exactly.

use crate::error::ReNFTError;
use crate::state::{
    AssetMetadata, Pubkey, RentalState, TokenAccount, MAX_FEE_BPS, MAX_WHITELISTED_DAOS,
};
use vstd::prelude::*;

verus! {

/// Model of one marketplace configuration record.
#[verifier::ext_equal]
pub struct MarketplaceModel {
    pub name: Seq<char>,
    pub admin: Pubkey,
    pub fee: u16,
}

/// Model of one whitelist entry, keyed by (marketplace, collection).
#[verifier::ext_equal]
pub struct DaoModel {
    pub marketplace_name: Seq<char>,
    pub dao_authority: Pubkey,
    pub collection_mint: Pubkey,
}

/// Model of one listing record, keyed by (marketplace, asset).
#[verifier::ext_equal]
pub struct ListingModel {
    pub marketplace_name: Seq<char>,
    pub seller: Pubkey,
    pub mint_address: Pubkey,
    pub price: u64,
    pub rental_duration: i64,
    pub rental: RentalState,
    pub vault_amount: u64,
}

/// The whole ledger state the marketplace touches.
#[verifier::ext_equal]
pub struct MarketModel {
    pub marketplaces: Seq<MarketplaceModel>,
    pub daos: Seq<DaoModel>,
    pub listings: Seq<ListingModel>,
    pub accounts: Seq<TokenAccount>,
    pub assets: Seq<AssetMetadata>,
}

// ---------------------------------------------------------------------------
// Lookups
// ---------------------------------------------------------------------------

pub open spec fn has_mkt(m: MarketModel, name: Seq<char>) -> bool {
    exists|i: int| 0 <= i < m.marketplaces.len() && (#[trigger] m.marketplaces[i]).name == name
}

pub open spec fn mkt_idx(m: MarketModel, name: Seq<char>) -> int {
    choose|i: int| 0 <= i < m.marketplaces.len() && (#[trigger] m.marketplaces[i]).name == name
}

pub open spec fn mkt_admin(m: MarketModel, name: Seq<char>) -> Pubkey {
    m.marketplaces[mkt_idx(m, name)].admin
}

pub open spec fn mkt_fee(m: MarketModel, name: Seq<char>) -> u16 {
    m.marketplaces[mkt_idx(m, name)].fee
}

pub open spec fn dao_key_matches(d: DaoModel, name: Seq<char>, collection_mint: Pubkey) -> bool {
    d.marketplace_name == name && d.collection_mint == collection_mint
}

pub open spec fn has_dao(m: MarketModel, name: Seq<char>, collection_mint: Pubkey) -> bool {
    exists|i: int|
        0 <= i < m.daos.len() && dao_key_matches(#[trigger] m.daos[i], name, collection_mint)
}

pub open spec fn dao_idx(m: MarketModel, name: Seq<char>, collection_mint: Pubkey) -> int {
    choose|i: int|
        0 <= i < m.daos.len() && dao_key_matches(#[trigger] m.daos[i], name, collection_mint)
}

pub open spec fn dao_authority_of(m: MarketModel, name: Seq<char>, collection_mint: Pubkey) -> Pubkey {
    m.daos[dao_idx(m, name, collection_mint)].dao_authority
}

/// How many whitelist entries a marketplace holds.
pub open spec fn dao_count(daos: Seq<DaoModel>, name: Seq<char>) -> nat
    decreases daos.len(),
{
    if daos.len() == 0 {
        0
    } else {
        dao_count(daos.drop_last(), name) + if daos.last().marketplace_name == name {
            1nat
        } else {
            0nat
        }
    }
}

pub open spec fn listing_key_matches(l: ListingModel, name: Seq<char>, mint: Pubkey) -> bool {
    l.marketplace_name == name && l.mint_address == mint
}

pub open spec fn has_listing(m: MarketModel, name: Seq<char>, mint: Pubkey) -> bool {
    exists|i: int|
        0 <= i < m.listings.len() && listing_key_matches(#[trigger] m.listings[i], name, mint)
}

pub open spec fn listing_idx(m: MarketModel, name: Seq<char>, mint: Pubkey) -> int {
    choose|i: int|
        0 <= i < m.listings.len() && listing_key_matches(#[trigger] m.listings[i], name, mint)
}

pub open spec fn listing_of(m: MarketModel, name: Seq<char>, mint: Pubkey) -> ListingModel {
    m.listings[listing_idx(m, name, mint)]
}

/// Whether any listing, in any marketplace, escrows the given asset.
pub open spec fn mint_listed(m: MarketModel, mint: Pubkey) -> bool {
    exists|i: int| 0 <= i < m.listings.len() && (#[trigger] m.listings[i]).mint_address == mint
}

pub open spec fn acct_key_matches(a: TokenAccount, owner: Pubkey, mint: Pubkey) -> bool {
    a.owner == owner && a.mint == mint
}

pub open spec fn has_account(m: MarketModel, owner: Pubkey, mint: Pubkey) -> bool {
    exists|i: int|
        0 <= i < m.accounts.len() && acct_key_matches(#[trigger] m.accounts[i], owner, mint)
}

pub open spec fn acct_idx(m: MarketModel, owner: Pubkey, mint: Pubkey) -> int {
    choose|i: int|
        0 <= i < m.accounts.len() && acct_key_matches(#[trigger] m.accounts[i], owner, mint)
}

/// The balance an owner holds in an asset; zero when no account exists.
pub open spec fn account_amount(m: MarketModel, owner: Pubkey, mint: Pubkey) -> int {
    if has_account(m, owner, mint) {
        m.accounts[acct_idx(m, owner, mint)].amount as int
    } else {
        0
    }
}

pub open spec fn has_asset(m: MarketModel, mint: Pubkey) -> bool {
    exists|i: int| 0 <= i < m.assets.len() && (#[trigger] m.assets[i]).mint == mint
}

pub open spec fn asset_idx(m: MarketModel, mint: Pubkey) -> int {
    choose|i: int| 0 <= i < m.assets.len() && (#[trigger] m.assets[i]).mint == mint
}

pub open spec fn asset_of(m: MarketModel, mint: Pubkey) -> AssetMetadata {
    m.assets[asset_idx(m, mint)]
}

// ---------------------------------------------------------------------------
// Well-formedness
// ---------------------------------------------------------------------------

/// An active listing's window spans exactly its rental duration. Because the
/// window bounds and the renter live together in the `Active` arm, they are
/// structurally all-or-nothing.
pub open spec fn rental_window_ok(l: ListingModel) -> bool {
    match l.rental {
        RentalState::Idle => true,
        RentalState::Active { rental_start, rental_end, current_renter } => rental_end
            == rental_start + l.rental_duration,
    }
}

pub open spec fn listing_ok(m: MarketModel, l: ListingModel) -> bool {
    &&& has_mkt(m, l.marketplace_name)
    &&& l.vault_amount == 1
    &&& l.price > 0
    &&& l.rental_duration > 0
    &&& rental_window_ok(l)
    &&& has_account(m, l.seller, l.mint_address)
    &&& has_asset(m, l.mint_address)
}

pub open spec fn marketplaces_unique(s: Seq<MarketplaceModel>) -> bool {
    forall|i: int, j: int| 0 <= i < j < s.len() ==> (#[trigger] s[i]).name != (#[trigger] s[j]).name
}

pub open spec fn daos_unique(s: Seq<DaoModel>) -> bool {
    forall|i: int, j: int|
        0 <= i < j < s.len() ==> !((#[trigger] s[i]).marketplace_name == (
        #[trigger] s[j]).marketplace_name && s[i].collection_mint == s[j].collection_mint)
}

/// An asset stands in at most one listing, across all marketplaces: there is
/// only one unit of it to escrow.
pub open spec fn listings_unique(s: Seq<ListingModel>) -> bool {
    forall|i: int, j: int|
        0 <= i < j < s.len() ==> (#[trigger] s[i]).mint_address != (#[trigger] s[j]).mint_address
}

/// Each asset has a single holding account: its original owner's.
pub open spec fn accounts_unique(s: Seq<TokenAccount>) -> bool {
    forall|i: int, j: int|
        0 <= i < j < s.len() ==> (#[trigger] s[i]).mint != (#[trigger] s[j]).mint
}

pub open spec fn assets_unique(s: Seq<AssetMetadata>) -> bool {
    forall|i: int, j: int|
        0 <= i < j < s.len() ==> (#[trigger] s[i]).mint != (#[trigger] s[j]).mint
}

pub open spec fn marketplaces_wf(m: MarketModel) -> bool {
    &&& marketplaces_unique(m.marketplaces)
    &&& forall|i: int|
        0 <= i < m.marketplaces.len() ==> (#[trigger] m.marketplaces[i]).fee <= MAX_FEE_BPS
}

pub open spec fn daos_wf(m: MarketModel) -> bool {
    &&& daos_unique(m.daos)
    &&& forall|i: int|
        0 <= i < m.daos.len() ==> has_mkt(m, (#[trigger] m.daos[i]).marketplace_name)
    &&& forall|name: Seq<char>| #[trigger] dao_count(m.daos, name) <= MAX_WHITELISTED_DAOS
}

pub open spec fn listings_wf(m: MarketModel) -> bool {
    &&& listings_unique(m.listings)
    &&& forall|i: int| 0 <= i < m.listings.len() ==> listing_ok(m, #[trigger] m.listings[i])
}

pub open spec fn accounts_wf(m: MarketModel) -> bool {
    &&& accounts_unique(m.accounts)
    &&& forall|i: int| 0 <= i < m.accounts.len() ==> has_asset(m, (#[trigger] m.accounts[i]).mint)
    &&& forall|i: int|
        0 <= i < m.accounts.len() ==> (#[trigger] m.accounts[i]).amount == if mint_listed(
            m,
            m.accounts[i].mint,
        ) {
            0int
        } else {
            1int
        }
}

pub open spec fn assets_wf(m: MarketModel) -> bool {
    assets_unique(m.assets)
}

/// The ledger invariant: unique keys per record family, every record anchored
/// to an existing marketplace and asset, every vault holding exactly one unit
/// of its escrowed asset, every rental window spanning its duration, and each
/// asset's single holding account empty exactly while the asset is escrowed.
pub open spec fn wf(m: MarketModel) -> bool {
    &&& marketplaces_wf(m)
    &&& daos_wf(m)
    &&& listings_wf(m)
    &&& accounts_wf(m)
    &&& assets_wf(m)
}

/// The ledger before any operation has run.
pub open spec fn empty_model() -> MarketModel {
    MarketModel {
        marketplaces: Seq::empty(),
        daos: Seq::empty(),
        listings: Seq::empty(),
        accounts: Seq::empty(),
        assets: Seq::empty(),
    }
}

// ---------------------------------------------------------------------------
// Transitions
// ---------------------------------------------------------------------------

/// Creating a marketplace: fails if its name-derived address is occupied.
pub open spec fn initialize_t(m: MarketModel, caller: Pubkey, name: Seq<char>, fee: u16) -> (
    MarketModel,
    Result<(), ReNFTError>,
) {
    if has_mkt(m, name) {
        (m, Err(ReNFTError::AlreadyExists))
    } else {
        (
            MarketModel {
                marketplaces: m.marketplaces.push(MarketplaceModel { name, admin: caller, fee }),
                ..m
            },
            Ok(()),
        )
    }
}

/// Whitelisting a collection: admin-only, unique per (marketplace,
/// collection), bounded by the fixed whitelist capacity.
pub open spec fn whitelist_t(
    m: MarketModel,
    caller: Pubkey,
    name: Seq<char>,
    dao_authority: Pubkey,
    collection_mint: Pubkey,
) -> (MarketModel, Result<(), ReNFTError>) {
    if caller != mkt_admin(m, name) {
        (m, Err(ReNFTError::UnauthorizedSeller))
    } else if has_dao(m, name, collection_mint) {
        (m, Err(ReNFTError::DaoAlreadyWhitelisted))
    } else if dao_count(m.daos, name) >= MAX_WHITELISTED_DAOS {
        (m, Err(ReNFTError::DaoListFull))
    } else {
        (
            MarketModel {
                daos: m.daos.push(
                    DaoModel { marketplace_name: name, dao_authority, collection_mint },
                ),
                ..m
            },
            Ok(()),
        )
    }
}

/// Creating a listing: the key must be free, the caller must hold the one
/// unit of the asset, the asset's verified collection must match the named
/// collection and carry a whitelist entry. On success the listing record is
/// created idle and the unit moves from the seller's account into the vault,
/// in one atomic step.
pub open spec fn list_t(
    m: MarketModel,
    caller: Pubkey,
    name: Seq<char>,
    mint: Pubkey,
    collection_mint: Pubkey,
    price: u64,
    rental_duration: i64,
) -> (MarketModel, Result<(), ReNFTError>) {
    if has_listing(m, name, mint) {
        (m, Err(ReNFTError::AlreadyExists))
    } else if account_amount(m, caller, mint) != 1 {
        (m, Err(ReNFTError::UnauthorizedSeller))
    } else if !has_asset(m, mint) || asset_of(m, mint).collection_mint != collection_mint {
        (m, Err(ReNFTError::InvalidCollection))
    } else if !asset_of(m, mint).verified {
        (m, Err(ReNFTError::UnauthorizedSeller))
    } else if !has_dao(m, name, collection_mint) {
        (m, Err(ReNFTError::UnauthorizedSeller))
    } else {
        let ai = acct_idx(m, caller, mint);
        (
            MarketModel {
                listings: m.listings.push(
                    ListingModel {
                        marketplace_name: name,
                        seller: caller,
                        mint_address: mint,
                        price,
                        rental_duration,
                        rental: RentalState::Idle,
                        vault_amount: 1,
                    },
                ),
                accounts: m.accounts.update(ai, TokenAccount { amount: 0, ..m.accounts[ai] }),
                ..m
            },
            Ok(()),
        )
    }
}

/// Renting an idle listing: the record turns active with a window of exactly
/// its rental duration starting now. The asset itself stays in the vault.
pub open spec fn rent_t(
    m: MarketModel,
    renter: Pubkey,
    name: Seq<char>,
    mint: Pubkey,
    now: i64,
) -> MarketModel {
    let li = listing_idx(m, name, mint);
    let l = m.listings[li];
    MarketModel {
        listings: m.listings.update(
            li,
            ListingModel {
                rental: RentalState::Active {
                    rental_start: now,
                    rental_end: (now + l.rental_duration) as i64,
                    current_renter: renter,
                },
                ..l
            },
        ),
        ..m
    }
}

/// Concluding a rental: the record returns to idle; only the right to use
/// changes hands, the asset never leaves the vault.
pub open spec fn conclude_t(m: MarketModel, name: Seq<char>, mint: Pubkey) -> MarketModel {
    let li = listing_idx(m, name, mint);
    let l = m.listings[li];
    MarketModel { listings: m.listings.update(li, ListingModel { rental: RentalState::Idle, ..l }), ..m }
}

/// Withdrawing an idle listing: the vault's unit returns to the seller's
/// account and the listing record (with its vault) is removed.
pub open spec fn withdraw_t(m: MarketModel, name: Seq<char>, mint: Pubkey) -> MarketModel {
    let li = listing_idx(m, name, mint);
    let l = m.listings[li];
    let ai = acct_idx(m, l.seller, l.mint_address);
    MarketModel {
        listings: m.listings.remove(li),
        accounts: m.accounts.update(
            ai,
            TokenAccount {
                amount: (m.accounts[ai].amount + l.vault_amount) as u64,
                ..m.accounts[ai]
            },
        ),
        ..m
    }
}

/// Recording a fact from the collection-membership oracle together with the
/// initial custody of a fresh asset: the owner receives the single unit.
pub open spec fn register_asset_t(
    m: MarketModel,
    owner: Pubkey,
    mint: Pubkey,
    collection_mint: Pubkey,
    verified: bool,
) -> (MarketModel, Result<(), ReNFTError>) {
    if has_asset(m, mint) {
        (m, Err(ReNFTError::AlreadyExists))
    } else {
        (
            MarketModel {
                assets: m.assets.push(AssetMetadata { mint, collection_mint, verified }),
                accounts: m.accounts.push(TokenAccount { owner, mint, amount: 1 }),
                ..m
            },
            Ok(()),
        )
    }
}

/// The marketplace's cut of a rental price, in basis points, rounded down.
pub open spec fn fee_cut(price: u64, fee: u16) -> int {
    (price * fee) / (MAX_FEE_BPS as int)
}

pub proof fn lemma_fee_mul_bounds(payment: u64, fee: u16) by (nonlinear_arith)
    requires
        fee <= MAX_FEE_BPS,
    ensures
        0 <= payment * fee,
        payment * fee <= payment * (MAX_FEE_BPS as int),
        payment * fee < 0x100000000000000000000000000000000,
{
}

// ---------------------------------------------------------------------------
// Lookup lemmas: under key uniqueness, any matching index is the looked-up one
// ---------------------------------------------------------------------------

pub proof fn lemma_mkt_idx_is(m: MarketModel, i: int, name: Seq<char>)
    requires
        marketplaces_unique(m.marketplaces),
        0 <= i < m.marketplaces.len(),
        m.marketplaces[i].name == name,
    ensures
        has_mkt(m, name),
        mkt_idx(m, name) == i,
{
    assert(has_mkt(m, name));
    let j = mkt_idx(m, name);
    if i < j {
        assert(m.marketplaces[i].name != m.marketplaces[j].name);
    } else if j < i {
        assert(m.marketplaces[j].name != m.marketplaces[i].name);
    }
}

pub proof fn lemma_dao_idx_is(m: MarketModel, i: int, name: Seq<char>, collection_mint: Pubkey)
    requires
        daos_unique(m.daos),
        0 <= i < m.daos.len(),
        dao_key_matches(m.daos[i], name, collection_mint),
    ensures
        has_dao(m, name, collection_mint),
        dao_idx(m, name, collection_mint) == i,
{
    assert(has_dao(m, name, collection_mint));
    let j = dao_idx(m, name, collection_mint);
    if i < j {
        assert(!(m.daos[i].marketplace_name == m.daos[j].marketplace_name
            && m.daos[i].collection_mint == m.daos[j].collection_mint));
    } else if j < i {
        assert(!(m.daos[j].marketplace_name == m.daos[i].marketplace_name
            && m.daos[j].collection_mint == m.daos[i].collection_mint));
    }
}

pub proof fn lemma_listing_idx_is(m: MarketModel, i: int, name: Seq<char>, mint: Pubkey)
    requires
        listings_unique(m.listings),
        0 <= i < m.listings.len(),
        listing_key_matches(m.listings[i], name, mint),
    ensures
        has_listing(m, name, mint),
        listing_idx(m, name, mint) == i,
        listing_of(m, name, mint) == m.listings[i],
        mint_listed(m, mint),
{
    assert(has_listing(m, name, mint));
    let j = listing_idx(m, name, mint);
    if i < j {
        assert(m.listings[i].mint_address != m.listings[j].mint_address);
    } else if j < i {
        assert(m.listings[j].mint_address != m.listings[i].mint_address);
    }
}

pub proof fn lemma_acct_idx_is(m: MarketModel, i: int, owner: Pubkey, mint: Pubkey)
    requires
        accounts_unique(m.accounts),
        0 <= i < m.accounts.len(),
        acct_key_matches(m.accounts[i], owner, mint),
    ensures
        has_account(m, owner, mint),
        acct_idx(m, owner, mint) == i,
        account_amount(m, owner, mint) == m.accounts[i].amount,
{
    assert(has_account(m, owner, mint));
    let j = acct_idx(m, owner, mint);
    if i < j {
        assert(m.accounts[i].mint != m.accounts[j].mint);
    } else if j < i {
        assert(m.accounts[j].mint != m.accounts[i].mint);
    }
}

pub proof fn lemma_asset_idx_is(m: MarketModel, i: int, mint: Pubkey)
    requires
        assets_unique(m.assets),
        0 <= i < m.assets.len(),
        m.assets[i].mint == mint,
    ensures
        has_asset(m, mint),
        asset_idx(m, mint) == i,
        asset_of(m, mint) == m.assets[i],
{
    assert(has_asset(m, mint));
    let j = asset_idx(m, mint);
    if i < j {
        assert(m.assets[i].mint != m.assets[j].mint);
    } else if j < i {
        assert(m.assets[j].mint != m.assets[i].mint);
    }
}

// ---------------------------------------------------------------------------
// Lookups read one table each: transferring them between equal tables
// ---------------------------------------------------------------------------

pub proof fn lemma_mkt_lookup_congr(m1: MarketModel, m2: MarketModel, name: Seq<char>)
    requires
        m1.marketplaces == m2.marketplaces,
        marketplaces_unique(m1.marketplaces),
        has_mkt(m1, name),
    ensures
        has_mkt(m2, name),
        mkt_idx(m2, name) == mkt_idx(m1, name),
        mkt_admin(m2, name) == mkt_admin(m1, name),
        mkt_fee(m2, name) == mkt_fee(m1, name),
{
    let i = mkt_idx(m1, name);
    lemma_mkt_idx_is(m1, i, name);
    lemma_mkt_idx_is(m2, i, name);
}

pub proof fn lemma_account_congr(m1: MarketModel, m2: MarketModel, owner: Pubkey, mint: Pubkey)
    requires
        m1.accounts == m2.accounts,
        accounts_unique(m1.accounts),
    ensures
        has_account(m1, owner, mint) <==> has_account(m2, owner, mint),
        account_amount(m1, owner, mint) == account_amount(m2, owner, mint),
        has_account(m1, owner, mint) ==> acct_idx(m1, owner, mint) == acct_idx(m2, owner, mint),
{
    if has_account(m1, owner, mint) {
        let i = acct_idx(m1, owner, mint);
        lemma_acct_idx_is(m1, i, owner, mint);
        lemma_acct_idx_is(m2, i, owner, mint);
    } else if has_account(m2, owner, mint) {
        let i = acct_idx(m2, owner, mint);
        assert(acct_key_matches(m1.accounts[i], owner, mint));
        assert(has_account(m1, owner, mint));
    }
}

pub proof fn lemma_asset_congr(m1: MarketModel, m2: MarketModel, mint: Pubkey)
    requires
        m1.assets == m2.assets,
        assets_unique(m1.assets),
    ensures
        has_asset(m1, mint) <==> has_asset(m2, mint),
        has_asset(m1, mint) ==> asset_of(m1, mint) == asset_of(m2, mint),
{
    if has_asset(m1, mint) {
        let i = asset_idx(m1, mint);
        lemma_asset_idx_is(m1, i, mint);
        lemma_asset_idx_is(m2, i, mint);
    } else if has_asset(m2, mint) {
        let i = asset_idx(m2, mint);
        assert(m1.assets[i].mint == mint);
        assert(has_asset(m1, mint));
    }
}

pub proof fn lemma_listing_lookup_congr(m1: MarketModel, m2: MarketModel, name: Seq<char>, mint: Pubkey)
    requires
        m1.listings == m2.listings,
        listings_unique(m1.listings),
    ensures
        has_listing(m1, name, mint) <==> has_listing(m2, name, mint),
        mint_listed(m1, mint) <==> mint_listed(m2, mint),
        has_listing(m1, name, mint) ==> listing_idx(m1, name, mint) == listing_idx(m2, name, mint)
            && listing_of(m1, name, mint) == listing_of(m2, name, mint),
{
    if has_listing(m1, name, mint) {
        let i = listing_idx(m1, name, mint);
        lemma_listing_idx_is(m1, i, name, mint);
        lemma_listing_idx_is(m2, i, name, mint);
    } else if has_listing(m2, name, mint) {
        let i = listing_idx(m2, name, mint);
        assert(listing_key_matches(m1.listings[i], name, mint));
        assert(has_listing(m1, name, mint));
    }
    if mint_listed(m1, mint) {
        let i = choose|i: int|
            0 <= i < m1.listings.len() && (#[trigger] m1.listings[i]).mint_address == mint;
        assert(m2.listings[i].mint_address == mint);
        assert(mint_listed(m2, mint));
    }
    if mint_listed(m2, mint) {
        let i = choose|i: int|
            0 <= i < m2.listings.len() && (#[trigger] m2.listings[i]).mint_address == mint;
        assert(m1.listings[i].mint_address == mint);
        assert(mint_listed(m1, mint));
    }
}

// ---------------------------------------------------------------------------
// Counting whitelist entries
// ---------------------------------------------------------------------------

pub proof fn lemma_dao_count_push(daos: Seq<DaoModel>, d: DaoModel, name: Seq<char>)
    ensures
        dao_count(daos.push(d), name) == dao_count(daos, name) + if d.marketplace_name == name {
            1int
        } else {
            0int
        },
{
    assert(daos.push(d).drop_last() =~= daos);
    assert(daos.push(d).last() == d);
}

pub proof fn lemma_dao_count_take_step(daos: Seq<DaoModel>, i: int, name: Seq<char>)
    requires
        0 <= i < daos.len(),
    ensures
        dao_count(daos.take(i + 1), name) == dao_count(daos.take(i), name)
            + if daos[i].marketplace_name == name {
            1int
        } else {
            0int
        },
{
    assert(daos.take(i + 1).drop_last() =~= daos.take(i));
    assert(daos.take(i + 1).last() == daos[i]);
}

// ---------------------------------------------------------------------------
// Mapping a view over a sequence commutes with push, update and remove
// ---------------------------------------------------------------------------

pub proof fn lemma_map_values_push<A, B>(s: Seq<A>, f: spec_fn(A) -> B, x: A)
    ensures
        s.push(x).map_values(f) =~= s.map_values(f).push(f(x)),
{
}

pub proof fn lemma_map_values_update<A, B>(s: Seq<A>, f: spec_fn(A) -> B, i: int, x: A)
    requires
        0 <= i < s.len(),
    ensures
        s.update(i, x).map_values(f) =~= s.map_values(f).update(i, f(x)),
{
}

pub proof fn lemma_map_values_remove<A, B>(s: Seq<A>, f: spec_fn(A) -> B, i: int)
    requires
        0 <= i < s.len(),
    ensures
        s.remove(i).map_values(f) =~= s.map_values(f).remove(i),
{
}

// ---------------------------------------------------------------------------
// Every transition preserves well-formedness
// ---------------------------------------------------------------------------

pub proof fn lemma_initialize_preserves_wf(m: MarketModel, caller: Pubkey, name: Seq<char>, fee: u16)
    requires
        wf(m),
        fee <= MAX_FEE_BPS,
    ensures
        wf(initialize_t(m, caller, name, fee).0),
{
    if !has_mkt(m, name) {
        let m2 = initialize_t(m, caller, name, fee).0;
        assert forall|i: int, j: int| 0 <= i < j < m2.marketplaces.len() implies (
        #[trigger] m2.marketplaces[i]).name != (#[trigger] m2.marketplaces[j]).name by {
            if j < m.marketplaces.len() {
                assert(m.marketplaces[i].name != m.marketplaces[j].name);
            } else {
                assert(m2.marketplaces[i] == m.marketplaces[i]);
                if m.marketplaces[i].name == name {
                    assert(has_mkt(m, name));
                }
            }
        }
        assert forall|n: Seq<char>| #[trigger] has_mkt(m, n) implies has_mkt(m2, n) by {
            let k = choose|k: int|
                0 <= k < m.marketplaces.len() && (#[trigger] m.marketplaces[k]).name == n;
            assert(m2.marketplaces[k].name == n);
        }
        assert forall|i: int| 0 <= i < m2.listings.len() implies listing_ok(
            m2,
            #[trigger] m2.listings[i],
        ) by {
            let l = m.listings[i];
            assert(listing_ok(m, l));
            lemma_account_congr(m, m2, l.seller, l.mint_address);
            lemma_asset_congr(m, m2, l.mint_address);
        }
        assert forall|i: int| 0 <= i < m2.accounts.len() implies has_asset(
            m2,
            (#[trigger] m2.accounts[i]).mint,
        ) by {
            lemma_asset_congr(m, m2, m.accounts[i].mint);
        }
        assert forall|i: int| 0 <= i < m2.accounts.len() implies (
        #[trigger] m2.accounts[i]).amount == if mint_listed(m2, m2.accounts[i].mint) {
            0int
        } else {
            1int
        } by {
            lemma_listing_lookup_congr(m, m2, Seq::empty(), m.accounts[i].mint);
        }
        assert(wf(m2));
    }
}

pub proof fn lemma_whitelist_preserves_wf(
    m: MarketModel,
    caller: Pubkey,
    name: Seq<char>,
    dao_authority: Pubkey,
    collection_mint: Pubkey,
)
    requires
        wf(m),
        has_mkt(m, name),
    ensures
        wf(whitelist_t(m, caller, name, dao_authority, collection_mint).0),
{
    let t = whitelist_t(m, caller, name, dao_authority, collection_mint);
    if t.1 is Ok {
        let m2 = t.0;
        let d = DaoModel { marketplace_name: name, dao_authority, collection_mint };
        assert forall|i: int, j: int| 0 <= i < j < m2.daos.len() implies !((
        #[trigger] m2.daos[i]).marketplace_name == (#[trigger] m2.daos[j]).marketplace_name
            && m2.daos[i].collection_mint == m2.daos[j].collection_mint) by {
            if j < m.daos.len() {
                assert(!(m.daos[i].marketplace_name == m.daos[j].marketplace_name
                    && m.daos[i].collection_mint == m.daos[j].collection_mint));
            } else {
                assert(m2.daos[i] == m.daos[i]);
                if m.daos[i].marketplace_name == name && m.daos[i].collection_mint
                    == collection_mint {
                    assert(dao_key_matches(m.daos[i], name, collection_mint));
                    assert(has_dao(m, name, collection_mint));
                }
            }
        }
        assert forall|n: Seq<char>| #[trigger] has_mkt(m, n) implies has_mkt(m2, n) by {
            let k = choose|k: int|
                0 <= k < m.marketplaces.len() && (#[trigger] m.marketplaces[k]).name == n;
            assert(m2.marketplaces[k].name == n);
        }
        assert forall|i: int| 0 <= i < m2.daos.len() implies has_mkt(
            m2,
            (#[trigger] m2.daos[i]).marketplace_name,
        ) by {
            if i < m.daos.len() {
                assert(has_mkt(m, m.daos[i].marketplace_name));
            } else {
                assert(m2.daos[i] == d);
            }
        }
        assert forall|n: Seq<char>| #[trigger] dao_count(m2.daos, n)
            <= MAX_WHITELISTED_DAOS by {
            lemma_dao_count_push(m.daos, d, n);
            assert(dao_count(m.daos, n) <= MAX_WHITELISTED_DAOS);
        }
        assert forall|i: int| 0 <= i < m2.listings.len() implies listing_ok(
            m2,
            #[trigger] m2.listings[i],
        ) by {
            let l = m.listings[i];
            assert(listing_ok(m, l));
            lemma_account_congr(m, m2, l.seller, l.mint_address);
            lemma_asset_congr(m, m2, l.mint_address);
        }
        assert forall|i: int| 0 <= i < m2.accounts.len() implies has_asset(
            m2,
            (#[trigger] m2.accounts[i]).mint,
        ) by {
            lemma_asset_congr(m, m2, m.accounts[i].mint);
        }
        assert forall|i: int| 0 <= i < m2.accounts.len() implies (
        #[trigger] m2.accounts[i]).amount == if mint_listed(m2, m2.accounts[i].mint) {
            0int
        } else {
            1int
        } by {
            lemma_listing_lookup_congr(m, m2, Seq::empty(), m.accounts[i].mint);
        }
        assert(wf(m2));
    }
}

pub proof fn lemma_list_preserves_wf(
    m: MarketModel,
    caller: Pubkey,
    name: Seq<char>,
    mint: Pubkey,
    collection_mint: Pubkey,
    price: u64,
    rental_duration: i64,
)
    requires
        wf(m),
        has_mkt(m, name),
        price > 0,
        rental_duration > 0,
    ensures
        wf(list_t(m, caller, name, mint, collection_mint, price, rental_duration).0),
{
    let t = list_t(m, caller, name, mint, collection_mint, price, rental_duration);
    if t.1 is Ok {
        let m2 = t.0;
        let ai = acct_idx(m, caller, mint);
        assert(has_account(m, caller, mint));
        assert(acct_key_matches(m.accounts[ai], caller, mint));
        if mint_listed(m, mint) {
            assert(m.accounts[ai].amount == 0int);
        }
        assert(!mint_listed(m, mint));
        let nl = ListingModel {
            marketplace_name: name,
            seller: caller,
            mint_address: mint,
            price,
            rental_duration,
            rental: RentalState::Idle,
            vault_amount: 1,
        };
        // account keys are untouched; only the balance at `ai` changes
        assert forall|k: int| 0 <= k < m2.accounts.len() implies (#[trigger] m2.accounts[k]).owner
            == m.accounts[k].owner && m2.accounts[k].mint == m.accounts[k].mint by {}
        assert forall|i: int, j: int| 0 <= i < j < m2.listings.len() implies (
        #[trigger] m2.listings[i]).mint_address != (#[trigger] m2.listings[j]).mint_address by {
            if j < m.listings.len() {
                assert(m.listings[i].mint_address != m.listings[j].mint_address);
            } else {
                assert(m2.listings[i] == m.listings[i]);
                if m.listings[i].mint_address == mint {
                    assert(mint_listed(m, mint));
                }
            }
        }
        assert forall|o: Pubkey, a: Pubkey| #[trigger] has_account(m, o, a) implies has_account(
            m2,
            o,
            a,
        ) by {
            let k = choose|k: int|
                0 <= k < m.accounts.len() && acct_key_matches(#[trigger] m.accounts[k], o, a);
            assert(acct_key_matches(m2.accounts[k], o, a));
        }
        assert forall|i: int| 0 <= i < m2.listings.len() implies listing_ok(
            m2,
            #[trigger] m2.listings[i],
        ) by {
            if i < m.listings.len() {
                let l = m.listings[i];
                assert(listing_ok(m, l));
                lemma_mkt_lookup_congr(m, m2, l.marketplace_name);
                lemma_asset_congr(m, m2, l.mint_address);
            } else {
                assert(m2.listings[i] == nl);
                lemma_mkt_lookup_congr(m, m2, name);
                lemma_asset_congr(m, m2, mint);
            }
        }
        assert forall|i: int| 0 <= i < m2.accounts.len() implies has_asset(
            m2,
            (#[trigger] m2.accounts[i]).mint,
        ) by {
            assert(has_asset(m, m.accounts[i].mint));
            lemma_asset_congr(m, m2, m.accounts[i].mint);
        }
        assert(m2.listings[m.listings.len() as int] == nl);
        assert(mint_listed(m2, mint));
        assert forall|i: int| 0 <= i < m2.accounts.len() implies (
        #[trigger] m2.accounts[i]).amount == if mint_listed(m2, m2.accounts[i].mint) {
            0int
        } else {
            1int
        } by {
            if i == ai {
                assert(m2.accounts[i].amount == 0int);
            } else {
                let a = m.accounts[i].mint;
                assert(m.accounts[i].mint != m.accounts[ai].mint);
                if mint_listed(m2, a) {
                    let w = choose|w: int|
                        0 <= w < m2.listings.len() && (#[trigger] m2.listings[w]).mint_address
                            == a;
                    assert(w < m.listings.len());
                    assert(m.listings[w].mint_address == a);
                    assert(mint_listed(m, a));
                }
                if mint_listed(m, a) {
                    let w = choose|w: int|
                        0 <= w < m.listings.len() && (#[trigger] m.listings[w]).mint_address == a;
                    assert(m2.listings[w].mint_address == a);
                    assert(mint_listed(m2, a));
                }
            }
        }
        assert(wf(m2));
    }
}

pub proof fn lemma_update_rental_preserves_wf(m: MarketModel, name: Seq<char>, mint: Pubkey, l2: ListingModel)
    requires
        wf(m),
        has_listing(m, name, mint),
        l2 == (ListingModel { rental: l2.rental, ..m.listings[listing_idx(m, name, mint)] }),
        rental_window_ok(l2),
    ensures
        wf(MarketModel { listings: m.listings.update(listing_idx(m, name, mint), l2), ..m }),

{
    let li = listing_idx(m, name, mint);
    assert(listing_key_matches(m.listings[li], name, mint));
    let m2 = MarketModel { listings: m.listings.update(li, l2), ..m };
    assert forall|k: int| 0 <= k < m2.listings.len() implies (#[trigger] m2.listings[k]).mint_address
        == m.listings[k].mint_address by {}
    assert forall|i: int, j: int| 0 <= i < j < m2.listings.len() implies (
    #[trigger] m2.listings[i]).mint_address != (#[trigger] m2.listings[j]).mint_address by {
        assert(m.listings[i].mint_address != m.listings[j].mint_address);
    }
    assert forall|i: int| 0 <= i < m2.listings.len() implies listing_ok(
        m2,
        #[trigger] m2.listings[i],
    ) by {
        let l = m.listings[i];
        assert(listing_ok(m, l));
        lemma_mkt_lookup_congr(m, m2, l.marketplace_name);
        lemma_account_congr(m, m2, l.seller, l.mint_address);
        lemma_asset_congr(m, m2, l.mint_address);
        if i == li {
            assert(m2.listings[i] == l2);
            assert(l2.marketplace_name == l.marketplace_name);
        }
    }
    assert forall|i: int| 0 <= i < m2.accounts.len() implies has_asset(
        m2,
        (#[trigger] m2.accounts[i]).mint,
    ) by {
        lemma_asset_congr(m, m2, m.accounts[i].mint);
    }
    assert forall|i: int| 0 <= i < m2.accounts.len() implies (#[trigger] m2.accounts[i]).amount
        == if mint_listed(m2, m2.accounts[i].mint) {
        0int
    } else {
        1int
    } by {
        let a = m.accounts[i].mint;
        if mint_listed(m2, a) {
            let w = choose|w: int|
                0 <= w < m2.listings.len() && (#[trigger] m2.listings[w]).mint_address == a;
            assert(m.listings[w].mint_address == a);
            assert(mint_listed(m, a));
        }
        if mint_listed(m, a) {
            let w = choose|w: int|
                0 <= w < m.listings.len() && (#[trigger] m.listings[w]).mint_address == a;
            assert(m2.listings[w].mint_address == a);
            assert(mint_listed(m2, a));
        }
    }
    assert forall|i: int| 0 <= i < m2.daos.len() implies has_mkt(
        m2,
        (#[trigger] m2.daos[i]).marketplace_name,
    ) by {
        lemma_mkt_lookup_congr(m, m2, m.daos[i].marketplace_name);
    }
    assert(wf(m2));
}

pub proof fn lemma_rent_preserves_wf(m: MarketModel, renter: Pubkey, name: Seq<char>, mint: Pubkey, now: i64)
    requires
        wf(m),
        has_listing(m, name, mint),
        now + listing_of(m, name, mint).rental_duration <= i64::MAX,
    ensures
        wf(rent_t(m, renter, name, mint, now)),
{
    let li = listing_idx(m, name, mint);
    assert(listing_key_matches(m.listings[li], name, mint));
    let l = m.listings[li];
    assert(listing_ok(m, l));
    let l2 = ListingModel {
        rental: RentalState::Active {
            rental_start: now,
            rental_end: (now + l.rental_duration) as i64,
            current_renter: renter,
        },
        ..l
    };
    assert(i64::MIN <= now + l.rental_duration <= i64::MAX);
    assert(rental_window_ok(l2));
    lemma_update_rental_preserves_wf(m, name, mint, l2);
}

pub proof fn lemma_conclude_preserves_wf(m: MarketModel, name: Seq<char>, mint: Pubkey)
    requires
        wf(m),
        has_listing(m, name, mint),
    ensures
        wf(conclude_t(m, name, mint)),
{
    let li = listing_idx(m, name, mint);
    let l = m.listings[li];
    let l2 = ListingModel { rental: RentalState::Idle, ..l };
    lemma_update_rental_preserves_wf(m, name, mint, l2);
}

pub proof fn lemma_withdraw_preserves_wf(m: MarketModel, name: Seq<char>, mint: Pubkey)
    requires
        wf(m),
        has_listing(m, name, mint),
    ensures
        wf(withdraw_t(m, name, mint)),
        account_amount(withdraw_t(m, name, mint), listing_of(m, name, mint).seller, mint) == 1,
        !has_listing(withdraw_t(m, name, mint), name, mint),
{
    let li = listing_idx(m, name, mint);
    assert(listing_key_matches(m.listings[li], name, mint));
    let l = m.listings[li];
    assert(listing_ok(m, l));
    let ai = acct_idx(m, l.seller, l.mint_address);
    assert(acct_key_matches(m.accounts[ai], l.seller, l.mint_address));
    assert(mint_listed(m, mint));
    assert(m.accounts[ai].amount == 0int);
    let m2 = withdraw_t(m, name, mint);
    // how indices shift when the listing is removed
    assert forall|j: int| 0 <= j < m2.listings.len() implies #[trigger] m2.listings[j] == (if j
        < li {
        m.listings[j]
    } else {
        m.listings[j + 1]
    }) by {}
    assert forall|i: int, j: int| 0 <= i < j < m2.listings.len() implies (
    #[trigger] m2.listings[i]).mint_address != (#[trigger] m2.listings[j]).mint_address by {
        let i0 = if i < li { i } else { i + 1 };
        let j0 = if j < li { j } else { j + 1 };
        assert(m.listings[i0].mint_address != m.listings[j0].mint_address);
    }
    // the removed listing was the only one escrowing this asset
    assert forall|j: int| 0 <= j < m2.listings.len() implies (#[trigger] m2.listings[j]).mint_address
        != mint by {
        let j0 = if j < li { j } else { j + 1 };
        if m.listings[j0].mint_address == mint {
            if j0 < li {
                assert(m.listings[j0].mint_address != m.listings[li].mint_address);
            } else {
                assert(m.listings[li].mint_address != m.listings[j0].mint_address);
            }
        }
    }
    assert(!mint_listed(m2, mint));
    assert forall|k: int| 0 <= k < m2.accounts.len() implies (#[trigger] m2.accounts[k]).owner
        == m.accounts[k].owner && m2.accounts[k].mint == m.accounts[k].mint by {}
    assert forall|o: Pubkey, a: Pubkey| #[trigger] has_account(m, o, a) implies has_account(
        m2,
        o,
        a,
    ) by {
        let k = choose|k: int|
            0 <= k < m.accounts.len() && acct_key_matches(#[trigger] m.accounts[k], o, a);
        assert(acct_key_matches(m2.accounts[k], o, a));
    }
    assert forall|i: int| 0 <= i < m2.listings.len() implies listing_ok(
        m2,
        #[trigger] m2.listings[i],
    ) by {
        let i0 = if i < li { i } else { i + 1 };
        let lx = m.listings[i0];
        assert(listing_ok(m, lx));
        lemma_mkt_lookup_congr(m, m2, lx.marketplace_name);
        lemma_asset_congr(m, m2, lx.mint_address);
    }
    assert forall|i: int| 0 <= i < m2.accounts.len() implies has_asset(
        m2,
        (#[trigger] m2.accounts[i]).mint,
    ) by {
        lemma_asset_congr(m, m2, m.accounts[i].mint);
    }
    assert forall|i: int| 0 <= i < m2.accounts.len() implies (#[trigger] m2.accounts[i]).amount
        == if mint_listed(m2, m2.accounts[i].mint) {
        0int
    } else {
        1int
    } by {
        if i == ai {
            assert(m2.accounts[i].amount == 1int);
            assert(!mint_listed(m2, mint));
        } else {
            let a = m.accounts[i].mint;
            assert(m.accounts[i].mint != m.accounts[ai].mint);
            if mint_listed(m2, a) {
                let w = choose|w: int|
                    0 <= w < m2.listings.len() && (#[trigger] m2.listings[w]).mint_address == a;
                let w0 = if w < li { w } else { w + 1 };
                assert(m.listings[w0].mint_address == a);
                assert(mint_listed(m, a));
            }
            if mint_listed(m, a) {
                let w0 = choose|w0: int|
                    0 <= w0 < m.listings.len() && (#[trigger] m.listings[w0]).mint_address == a;
                assert(w0 != li);
                let w = if w0 < li { w0 } else { w0 - 1 };
                assert(m2.listings[w].mint_address == a);
                assert(mint_listed(m2, a));
            }
        }
    }
    assert forall|i: int| 0 <= i < m2.daos.len() implies has_mkt(
        m2,
        (#[trigger] m2.daos[i]).marketplace_name,
    ) by {
        lemma_mkt_lookup_congr(m, m2, m.daos[i].marketplace_name);
    }
    assert(wf(m2));
    lemma_acct_idx_is(m2, ai, l.seller, mint);
    if has_listing(m2, name, mint) {
        let w = listing_idx(m2, name, mint);
        assert(listing_key_matches(m2.listings[w], name, mint));
    }
}

pub proof fn lemma_register_asset_preserves_wf(
    m: MarketModel,
    owner: Pubkey,
    mint: Pubkey,
    collection_mint: Pubkey,
    verified: bool,
)
    requires
        wf(m),
    ensures
        wf(register_asset_t(m, owner, mint, collection_mint, verified).0),
{
    if !has_asset(m, mint) {
        let m2 = register_asset_t(m, owner, mint, collection_mint, verified).0;
        if mint_listed(m, mint) {
            let w = choose|w: int|
                0 <= w < m.listings.len() && (#[trigger] m.listings[w]).mint_address == mint;
            assert(listing_ok(m, m.listings[w]));
        }
        assert(!mint_listed(m, mint));
        assert forall|i: int, j: int| 0 <= i < j < m2.accounts.len() implies (
        #[trigger] m2.accounts[i]).mint != (#[trigger] m2.accounts[j]).mint by {
            if j < m.accounts.len() {
                assert(m.accounts[i].mint != m.accounts[j].mint);
            } else {
                assert(m2.accounts[i] == m.accounts[i]);
                if m.accounts[i].mint == mint {
                    assert(has_asset(m, m.accounts[i].mint));
                }
            }
        }
        assert forall|i: int, j: int| 0 <= i < j < m2.assets.len() implies (
        #[trigger] m2.assets[i]).mint != (#[trigger] m2.assets[j]).mint by {
            if j < m.assets.len() {
                assert(m.assets[i].mint != m.assets[j].mint);
            } else {
                assert(m2.assets[i] == m.assets[i]);
                if m.assets[i].mint == mint {
                    assert(has_asset(m, mint));
                }
            }
        }
        assert forall|a: Pubkey| #[trigger] has_asset(m, a) implies has_asset(m2, a) by {
            let k = choose|k: int| 0 <= k < m.assets.len() && (#[trigger] m.assets[k]).mint == a;
            assert(m2.assets[k].mint == a);
        }
        assert forall|i: int| 0 <= i < m2.listings.len() implies listing_ok(
            m2,
            #[trigger] m2.listings[i],
        ) by {
            let l = m.listings[i];
            assert(listing_ok(m, l));
            lemma_mkt_lookup_congr(m, m2, l.marketplace_name);
            let k = choose|k: int|
                0 <= k < m.accounts.len() && acct_key_matches(
                    #[trigger] m.accounts[k],
                    l.seller,
                    l.mint_address,
                );
            assert(acct_key_matches(m2.accounts[k], l.seller, l.mint_address));
        }
        assert(m2.assets[m.assets.len() as int].mint == mint);
        assert(has_asset(m2, mint));
        assert forall|i: int| 0 <= i < m2.accounts.len() implies has_asset(
            m2,
            (#[trigger] m2.accounts[i]).mint,
        ) by {
            if i < m.accounts.len() {
                assert(has_asset(m, m.accounts[i].mint));
            } else {
                assert(m2.accounts[i].mint == mint);
            }
        }
        assert forall|i: int| 0 <= i < m2.accounts.len() implies (
        #[trigger] m2.accounts[i]).amount == if mint_listed(m2, m2.accounts[i].mint) {
            0int
        } else {
            1int
        } by {
            lemma_listing_lookup_congr(m, m2, Seq::empty(), m2.accounts[i].mint);
            if i < m.accounts.len() {
                assert(m.accounts[i].amount == if mint_listed(m, m.accounts[i].mint) {
                    0int
                } else {
                    1int
                });
            } else {
                assert(m2.accounts[i].amount == 1int);
                assert(!mint_listed(m, mint));
            }
        }
        assert forall|i: int| 0 <= i < m2.daos.len() implies has_mkt(
            m2,
            (#[trigger] m2.daos[i]).marketplace_name,
        ) by {
            lemma_mkt_lookup_congr(m, m2, m.daos[i].marketplace_name);
        }
        assert(wf(m2));
    }
}

} // verus!
