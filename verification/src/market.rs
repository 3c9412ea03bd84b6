//! The executable marketplace ledger, proved against the model transitions.

use crate::error::ReNFTError;
use crate::model::{
    account_amount, acct_idx, acct_key_matches, asset_of, dao_authority_of, dao_count,
    dao_key_matches, empty_model, fee_cut, has_account, has_asset, has_dao, has_listing, has_mkt,
    initialize_t, lemma_acct_idx_is, lemma_asset_idx_is, lemma_conclude_preserves_wf,
    lemma_dao_count_take_step, lemma_dao_idx_is, lemma_fee_mul_bounds,
    lemma_initialize_preserves_wf,
    lemma_list_preserves_wf, lemma_listing_idx_is, lemma_map_values_push,
    lemma_map_values_remove, lemma_map_values_update, lemma_mkt_idx_is,
    lemma_register_asset_preserves_wf, lemma_rent_preserves_wf, lemma_whitelist_preserves_wf,
    lemma_withdraw_preserves_wf, list_t, listing_key_matches, listing_of, listing_ok, conclude_t,
    mkt_admin, mkt_fee, register_asset_t, rent_t, whitelist_t, withdraw_t, wf, DaoModel,
    ListingModel, MarketModel,
};
use crate::state::{
    AssetMetadata, Listing, ListingInfo, Marketplace, Pubkey, RentalState, TokenAccount,
    WhitelistedDao, MAX_FEE_BPS, MAX_WHITELISTED_DAOS,
};
use vstd::arithmetic::div_mod::{lemma_div_by_multiple, lemma_div_is_ordered};
use vstd::prelude::*;

verus! {

/// The marketplace ledger: the explicit keyed tables standing for the host
/// ledger's derived record addresses.
pub struct Market {
    marketplaces: Vec<Marketplace>,
    daos: Vec<WhitelistedDao>,
    listings: Vec<Listing>,
    accounts: Vec<TokenAccount>,
    assets: Vec<AssetMetadata>,
}

impl View for Market {
    type V = MarketModel;

    closed spec fn view(&self) -> MarketModel {
        MarketModel {
            marketplaces: self.marketplaces@.map_values(|x: Marketplace| x@),
            daos: self.daos@.map_values(|x: WhitelistedDao| x@),
            listings: self.listings@.map_values(|x: Listing| x@),
            accounts: self.accounts@,
            assets: self.assets@,
        }
    }
}

impl Market {
    /// An empty ledger: no marketplace, no whitelist entry, no listing, no
    /// holdings, no recorded asset.
    pub fn new() -> (r: Market)
        ensures
            r@ =~= empty_model(),
            wf(r@),
    {
        Market {
            marketplaces: Vec::new(),
            daos: Vec::new(),
            listings: Vec::new(),
            accounts: Vec::new(),
            assets: Vec::new(),
        }
    }

    fn find_marketplace(&self, name: &String) -> (r: Option<usize>)
        ensures
            (match r {
                Some(i) => i < self@.marketplaces.len() && self@.marketplaces[i as int].name
                    == name@,
                None => !has_mkt(self@, name@),
            }),
    {
        let n = self.marketplaces.len();
        let mut i: usize = 0;
        while i < n
            invariant
                n == self.marketplaces.len(),
                i <= n,
                forall|k: int| 0 <= k < i ==> (#[trigger] self@.marketplaces[k]).name != name@,
            decreases n - i,
        {
            if self.marketplaces[i].name == *name {
                return Some(i);
            }
            i += 1;
        }
        None
    }

    fn find_dao(&self, name: &String, collection_mint: Pubkey) -> (r: Option<usize>)
        ensures
            (match r {
                Some(i) => i < self@.daos.len() && dao_key_matches(
                    self@.daos[i as int],
                    name@,
                    collection_mint,
                ),
                None => !has_dao(self@, name@, collection_mint),
            }),
    {
        let n = self.daos.len();
        let mut i: usize = 0;
        while i < n
            invariant
                n == self.daos.len(),
                i <= n,
                forall|k: int|
                    0 <= k < i ==> !dao_key_matches(
                        #[trigger] self@.daos[k],
                        name@,
                        collection_mint,
                    ),
            decreases n - i,
        {
            if self.daos[i].collection_mint == collection_mint && self.daos[i].marketplace_name
                == *name {
                return Some(i);
            }
            i += 1;
        }
        None
    }

    fn count_daos(&self, name: &String) -> (r: usize)
        ensures
            r == dao_count(self@.daos, name@),
    {
        let n = self.daos.len();
        let mut i: usize = 0;
        let mut c: usize = 0;
        proof {
            assert(self@.daos.take(0) =~= Seq::<DaoModel>::empty());
        }
        while i < n
            invariant
                n == self.daos.len(),
                i <= n,
                c <= i,
                c == dao_count(self@.daos.take(i as int), name@),
            decreases n - i,
        {
            proof {
                lemma_dao_count_take_step(self@.daos, i as int, name@);
            }
            if self.daos[i].marketplace_name == *name {
                c += 1;
            }
            i += 1;
        }
        proof {
            assert(self@.daos.take(n as int) =~= self@.daos);
        }
        c
    }

    fn find_listing(&self, name: &String, mint: Pubkey) -> (r: Option<usize>)
        ensures
            (match r {
                Some(i) => i < self@.listings.len() && listing_key_matches(
                    self@.listings[i as int],
                    name@,
                    mint,
                ),
                None => !has_listing(self@, name@, mint),
            }),
    {
        let n = self.listings.len();
        let mut i: usize = 0;
        while i < n
            invariant
                n == self.listings.len(),
                i <= n,
                forall|k: int|
                    0 <= k < i ==> !listing_key_matches(#[trigger] self@.listings[k], name@, mint),
            decreases n - i,
        {
            if self.listings[i].mint_address == mint && self.listings[i].marketplace_name == *name {
                return Some(i);
            }
            i += 1;
        }
        None
    }

    fn find_account(&self, owner: Pubkey, mint: Pubkey) -> (r: Option<usize>)
        ensures
            (match r {
                Some(i) => i < self@.accounts.len() && acct_key_matches(
                    self@.accounts[i as int],
                    owner,
                    mint,
                ),
                None => !has_account(self@, owner, mint),
            }),
    {
        let n = self.accounts.len();
        let mut i: usize = 0;
        while i < n
            invariant
                n == self.accounts.len(),
                i <= n,
                forall|k: int|
                    0 <= k < i ==> !acct_key_matches(#[trigger] self@.accounts[k], owner, mint),
            decreases n - i,
        {
            if self.accounts[i].owner == owner && self.accounts[i].mint == mint {
                return Some(i);
            }
            i += 1;
        }
        None
    }

    fn find_asset(&self, mint: Pubkey) -> (r: Option<usize>)
        ensures
            (match r {
                Some(i) => i < self@.assets.len() && self@.assets[i as int].mint == mint,
                None => !has_asset(self@, mint),
            }),
    {
        let n = self.assets.len();
        let mut i: usize = 0;
        while i < n
            invariant
                n == self.assets.len(),
                i <= n,
                forall|k: int| 0 <= k < i ==> (#[trigger] self@.assets[k]).mint != mint,
            decreases n - i,
        {
            if self.assets[i].mint == mint {
                return Some(i);
            }
            i += 1;
        }
        None
    }

    /// Create a marketplace: the caller becomes its administrator. Fails with
    /// `AlreadyExists` exactly when the name-derived address is occupied.
    pub fn initialize(&mut self, caller: Pubkey, name: &String, fee: u16) -> (r: Result<
        (),
        ReNFTError,
    >)
        requires
            wf(old(self)@),
            name@.len() > 0,
            fee <= MAX_FEE_BPS,
        ensures
            wf(final(self)@),
            final(self)@ == initialize_t(old(self)@, caller, name@, fee).0,
            r == initialize_t(old(self)@, caller, name@, fee).1,
            (r is Ok <==> !has_mkt(old(self)@, name@)),
            r is Err ==> final(self)@ == old(self)@,
            r is Ok ==> (has_mkt(final(self)@, name@) && mkt_admin(final(self)@, name@) == caller
                && mkt_fee(final(self)@, name@) == fee),
    {
        proof {
            lemma_initialize_preserves_wf(old(self)@, caller, name@, fee);
        }
        match self.find_marketplace(name) {
            Some(_i) => Err(ReNFTError::AlreadyExists),
            None => {
                let record = Marketplace { name: name.clone(), admin: caller, fee };
                let ghost rec = record;
                self.marketplaces.push(record);
                proof {
                    lemma_map_values_push(old(self).marketplaces@, |x: Marketplace| x@, rec);
                    assert(self@ =~= initialize_t(old(self)@, caller, name@, fee).0);
                    lemma_mkt_idx_is(self@, old(self)@.marketplaces.len() as int, name@);
                }
                Ok(())
            },
        }
    }

    /// Whitelist a collection for a marketplace, binding it to an external
    /// authority. Admin-only; at most one entry per (marketplace, collection);
    /// bounded by the fixed whitelist capacity.
    pub fn whitelist_dao(
        &mut self,
        caller: Pubkey,
        marketplace_name: &String,
        dao_authority: Pubkey,
        collection_mint: Pubkey,
    ) -> (r: Result<(), ReNFTError>)
        requires
            wf(old(self)@),
            has_mkt(old(self)@, marketplace_name@),
        ensures
            wf(final(self)@),
            final(self)@ == whitelist_t(
                old(self)@,
                caller,
                marketplace_name@,
                dao_authority,
                collection_mint,
            ).0,
            r == whitelist_t(
                old(self)@,
                caller,
                marketplace_name@,
                dao_authority,
                collection_mint,
            ).1,
            r is Err ==> final(self)@ == old(self)@,
            (r is Ok <==> (caller == mkt_admin(old(self)@, marketplace_name@) && !has_dao(
                old(self)@,
                marketplace_name@,
                collection_mint,
            ) && dao_count(old(self)@.daos, marketplace_name@) < MAX_WHITELISTED_DAOS)),
            caller != mkt_admin(old(self)@, marketplace_name@) ==> r == Err::<(), ReNFTError>(
                ReNFTError::UnauthorizedSeller,
            ),
            (caller == mkt_admin(old(self)@, marketplace_name@) && has_dao(
                old(self)@,
                marketplace_name@,
                collection_mint,
            )) ==> r == Err::<(), ReNFTError>(ReNFTError::DaoAlreadyWhitelisted),
            r is Ok ==> (has_dao(final(self)@, marketplace_name@, collection_mint)
                && dao_authority_of(final(self)@, marketplace_name@, collection_mint)
                == dao_authority && final(self)@.daos.len() == old(self)@.daos.len() + 1),
    {
        proof {
            lemma_whitelist_preserves_wf(
                old(self)@,
                caller,
                marketplace_name@,
                dao_authority,
                collection_mint,
            );
        }
        let mi = match self.find_marketplace(marketplace_name) {
            Some(i) => i,
            None => {
                proof {
                    assert(false);
                }
                return Err(ReNFTError::UnauthorizedSeller);
            },
        };
        proof {
            lemma_mkt_idx_is(old(self)@, mi as int, marketplace_name@);
        }
        if self.marketplaces[mi].admin != caller {
            return Err(ReNFTError::UnauthorizedSeller);
        }
        match self.find_dao(marketplace_name, collection_mint) {
            Some(_i) => Err(ReNFTError::DaoAlreadyWhitelisted),
            None => {
                let c = self.count_daos(marketplace_name);
                if c >= MAX_WHITELISTED_DAOS {
                    Err(ReNFTError::DaoListFull)
                } else {
                    let record = WhitelistedDao {
                        marketplace_name: marketplace_name.clone(),
                        dao_authority,
                        collection_mint,
                    };
                    let ghost rec = record;
                    self.daos.push(record);
                    proof {
                        lemma_map_values_push(old(self).daos@, |x: WhitelistedDao| x@, rec);
                        assert(self@ =~= whitelist_t(
                            old(self)@,
                            caller,
                            marketplace_name@,
                            dao_authority,
                            collection_mint,
                        ).0);
                        lemma_dao_idx_is(
                            self@,
                            old(self)@.daos.len() as int,
                            marketplace_name@,
                            collection_mint,
                        );
                    }
                    Ok(())
                }
            },
        }
    }

    /// Create a listing and deposit the asset's single unit into the
    /// listing's vault, in one atomic step: the record is created idle and
    /// the unit leaves the seller's account, or nothing changes at all.
    ///
    /// The authorization gate: the (marketplace, asset) key must be free, the
    /// caller must hold the one unit of the asset, the asset's collection
    /// must match the named collection, carry a verified membership, and hold
    /// a whitelist entry.
    pub fn list(
        &mut self,
        caller: Pubkey,
        marketplace_name: &String,
        mint_address: Pubkey,
        collection_mint: Pubkey,
        price: u64,
        rental_duration: i64,
    ) -> (r: Result<(), ReNFTError>)
        requires
            wf(old(self)@),
            has_mkt(old(self)@, marketplace_name@),
            price > 0,
            rental_duration > 0,
        ensures
            wf(final(self)@),
            final(self)@ == list_t(
                old(self)@,
                caller,
                marketplace_name@,
                mint_address,
                collection_mint,
                price,
                rental_duration,
            ).0,
            r == list_t(
                old(self)@,
                caller,
                marketplace_name@,
                mint_address,
                collection_mint,
                price,
                rental_duration,
            ).1,
            r is Err ==> final(self)@ == old(self)@,
            (r is Ok <==> (!has_listing(old(self)@, marketplace_name@, mint_address)
                && account_amount(old(self)@, caller, mint_address) == 1 && has_asset(
                old(self)@,
                mint_address,
            ) && asset_of(old(self)@, mint_address).collection_mint == collection_mint && asset_of(
                old(self)@,
                mint_address,
            ).verified && has_dao(old(self)@, marketplace_name@, collection_mint))),
            r is Ok ==> (has_listing(final(self)@, marketplace_name@, mint_address) && listing_of(
                final(self)@,
                marketplace_name@,
                mint_address,
            ) == (ListingModel {
                marketplace_name: marketplace_name@,
                seller: caller,
                mint_address,
                price,
                rental_duration,
                rental: RentalState::Idle,
                vault_amount: 1,
            }) && account_amount(final(self)@, caller, mint_address) == 0 && account_amount(
                old(self)@,
                caller,
                mint_address,
            ) == 1),
    {
        proof {
            lemma_list_preserves_wf(
                old(self)@,
                caller,
                marketplace_name@,
                mint_address,
                collection_mint,
                price,
                rental_duration,
            );
        }
        if let Some(_i) = self.find_listing(marketplace_name, mint_address) {
            return Err(ReNFTError::AlreadyExists);
        }
        let ai = match self.find_account(caller, mint_address) {
            Some(i) => i,
            None => {
                return Err(ReNFTError::UnauthorizedSeller);
            },
        };
        proof {
            lemma_acct_idx_is(old(self)@, ai as int, caller, mint_address);
        }
        if self.accounts[ai].amount != 1 {
            return Err(ReNFTError::UnauthorizedSeller);
        }
        let asi = match self.find_asset(mint_address) {
            Some(i) => i,
            None => {
                return Err(ReNFTError::InvalidCollection);
            },
        };
        proof {
            lemma_asset_idx_is(old(self)@, asi as int, mint_address);
        }
        if self.assets[asi].collection_mint != collection_mint {
            return Err(ReNFTError::InvalidCollection);
        }
        if !self.assets[asi].verified {
            return Err(ReNFTError::UnauthorizedSeller);
        }
        if self.find_dao(marketplace_name, collection_mint).is_none() {
            return Err(ReNFTError::UnauthorizedSeller);
        }
        let record = Listing {
            marketplace_name: marketplace_name.clone(),
            seller: caller,
            mint_address,
            price,
            rental_duration,
            rental: RentalState::Idle,
            vault_amount: 1,
        };
        let ghost rec = record;
        self.listings.push(record);
        self.accounts[ai] = TokenAccount { owner: caller, mint: mint_address, amount: 0 };
        proof {
            lemma_map_values_push(old(self).listings@, |x: Listing| x@, rec);
            assert(self@ =~= list_t(
                old(self)@,
                caller,
                marketplace_name@,
                mint_address,
                collection_mint,
                price,
                rental_duration,
            ).0);
            lemma_listing_idx_is(
                self@,
                old(self)@.listings.len() as int,
                marketplace_name@,
                mint_address,
            );
            lemma_acct_idx_is(self@, ai as int, caller, mint_address);
        }
        Ok(())
    }

    /// Rent an idle listing: the record turns active with a window of exactly
    /// its rental duration starting at `now`, and the renter is recorded. The
    /// asset itself never leaves the vault. The payment equals the listing
    /// price; the returned pair is its split (seller's share, marketplace
    /// cut), the cut being `price * fee` basis points rounded down.
    pub fn rent(
        &mut self,
        renter: Pubkey,
        marketplace_name: &String,
        mint_address: Pubkey,
        payment: u64,
        now: i64,
    ) -> (r: (u64, u64))
        requires
            wf(old(self)@),
            has_listing(old(self)@, marketplace_name@, mint_address),
            (listing_of(old(self)@, marketplace_name@, mint_address).rental is Idle),
            payment == listing_of(old(self)@, marketplace_name@, mint_address).price,
            now + listing_of(old(self)@, marketplace_name@, mint_address).rental_duration
                <= i64::MAX,
        ensures
            wf(final(self)@),
            final(self)@ == rent_t(old(self)@, renter, marketplace_name@, mint_address, now),
            has_listing(final(self)@, marketplace_name@, mint_address),
            listing_of(final(self)@, marketplace_name@, mint_address) == (ListingModel {
                rental: RentalState::Active {
                    rental_start: now,
                    rental_end: (now + listing_of(
                        old(self)@,
                        marketplace_name@,
                        mint_address,
                    ).rental_duration) as i64,
                    current_renter: renter,
                },
                ..listing_of(old(self)@, marketplace_name@, mint_address)
            }),
            final(self)@.accounts == old(self)@.accounts,
            r.0 + r.1 == payment,
            r.1 == fee_cut(payment, mkt_fee(old(self)@, marketplace_name@)),
    {
        proof {
            lemma_rent_preserves_wf(old(self)@, renter, marketplace_name@, mint_address, now);
        }
        let li = match self.find_listing(marketplace_name, mint_address) {
            Some(i) => i,
            None => {
                proof {
                    assert(false);
                }
                return (0, 0);
            },
        };
        proof {
            lemma_listing_idx_is(old(self)@, li as int, marketplace_name@, mint_address);
            assert(listing_ok(old(self)@, old(self)@.listings[li as int]));
        }
        let mi = match self.find_marketplace(marketplace_name) {
            Some(i) => i,
            None => {
                proof {
                    assert(false);
                }
                return (0, 0);
            },
        };
        proof {
            lemma_mkt_idx_is(old(self)@, mi as int, marketplace_name@);
        }
        let fee = self.marketplaces[mi].fee;
        let duration = self.listings[li].rental_duration;
        let rental_end = now + duration;
        let e = &mut self.listings[li];
        e.rental = RentalState::Active {
            rental_start: now,
            rental_end,
            current_renter: renter,
        };
        proof {
            let l2 = self.listings@[li as int];
            assert(self.listings@ == old(self).listings@.update(li as int, l2));
            lemma_map_values_update(old(self).listings@, |x: Listing| x@, li as int, l2);
            assert(self@ =~= rent_t(old(self)@, renter, marketplace_name@, mint_address, now));
            lemma_listing_idx_is(self@, li as int, marketplace_name@, mint_address);
        }
        proof {
            assert(old(self)@.marketplaces[mi as int].fee <= MAX_FEE_BPS);
            lemma_fee_mul_bounds(payment, fee);
            lemma_div_is_ordered(
                payment as int * fee as int,
                payment as int * MAX_FEE_BPS as int,
                MAX_FEE_BPS as int,
            );
            lemma_div_by_multiple(payment as int, MAX_FEE_BPS as int);
            lemma_div_is_ordered(0, payment as int * fee as int, MAX_FEE_BPS as int);
        }
        let wide: u128 = (payment as u128) * (fee as u128) / (MAX_FEE_BPS as u128);
        let fee_amount: u64 = wide as u64;
        let seller_amount: u64 = payment - fee_amount;
        (seller_amount, fee_amount)
    }

    /// Conclude a rental, after its window has passed or at the renter's own
    /// early return: the listing turns idle again. Only the right to use
    /// changes hands; the vault's balance is untouched.
    pub fn conclude_rental(
        &mut self,
        caller: Pubkey,
        marketplace_name: &String,
        mint_address: Pubkey,
        now: i64,
    )
        requires
            wf(old(self)@),
            has_listing(old(self)@, marketplace_name@, mint_address),
            (listing_of(old(self)@, marketplace_name@, mint_address).rental is Active),
            (now >= listing_of(old(self)@, marketplace_name@, mint_address).rental->rental_end
                || caller == listing_of(
                old(self)@,
                marketplace_name@,
                mint_address,
            ).rental->current_renter),
        ensures
            wf(final(self)@),
            final(self)@ == conclude_t(old(self)@, marketplace_name@, mint_address),
            has_listing(final(self)@, marketplace_name@, mint_address),
            listing_of(final(self)@, marketplace_name@, mint_address) == (ListingModel {
                rental: RentalState::Idle,
                ..listing_of(old(self)@, marketplace_name@, mint_address)
            }),
            final(self)@.accounts == old(self)@.accounts,
    {
        proof {
            lemma_conclude_preserves_wf(old(self)@, marketplace_name@, mint_address);
        }
        let li = match self.find_listing(marketplace_name, mint_address) {
            Some(i) => i,
            None => {
                proof {
                    assert(false);
                }
                return ;
            },
        };
        proof {
            lemma_listing_idx_is(old(self)@, li as int, marketplace_name@, mint_address);
        }
        let e = &mut self.listings[li];
        e.rental = RentalState::Idle;
        proof {
            let l2 = self.listings@[li as int];
            assert(self.listings@ == old(self).listings@.update(li as int, l2));
            lemma_map_values_update(old(self).listings@, |x: Listing| x@, li as int, l2);
            assert(self@ =~= conclude_t(old(self)@, marketplace_name@, mint_address));
            lemma_listing_idx_is(self@, li as int, marketplace_name@, mint_address);
        }
    }

    /// Withdraw an idle listing: the vault's unit returns to the seller and
    /// the listing record, with its vault, is removed. Only the seller may
    /// withdraw, and only while the listing is idle.
    pub fn withdraw(&mut self, caller: Pubkey, marketplace_name: &String, mint_address: Pubkey)
        requires
            wf(old(self)@),
            has_listing(old(self)@, marketplace_name@, mint_address),
            (listing_of(old(self)@, marketplace_name@, mint_address).rental is Idle),
            caller == listing_of(old(self)@, marketplace_name@, mint_address).seller,
        ensures
            wf(final(self)@),
            final(self)@ == withdraw_t(old(self)@, marketplace_name@, mint_address),
            !has_listing(final(self)@, marketplace_name@, mint_address),
            account_amount(final(self)@, caller, mint_address) == 1,
            account_amount(old(self)@, caller, mint_address) == 0,
    {
        proof {
            lemma_withdraw_preserves_wf(old(self)@, marketplace_name@, mint_address);
        }
        let li = match self.find_listing(marketplace_name, mint_address) {
            Some(i) => i,
            None => {
                proof {
                    assert(false);
                }
                return ;
            },
        };
        proof {
            lemma_listing_idx_is(old(self)@, li as int, marketplace_name@, mint_address);
            assert(listing_ok(old(self)@, old(self)@.listings[li as int]));
        }
        let seller = self.listings[li].seller;
        let vault_amount = self.listings[li].vault_amount;
        let ai = match self.find_account(seller, mint_address) {
            Some(i) => i,
            None => {
                proof {
                    assert(false);
                }
                return ;
            },
        };
        proof {
            lemma_acct_idx_is(old(self)@, ai as int, seller, mint_address);
        }
        let amount = self.accounts[ai].amount;
        self.accounts[ai] = TokenAccount {
            owner: seller,
            mint: mint_address,
            amount: amount + vault_amount,
        };
        self.listings.remove(li);
        proof {
            lemma_map_values_remove(old(self).listings@, |x: Listing| x@, li as int);
            assert(self@ =~= withdraw_t(old(self)@, marketplace_name@, mint_address));
        }
    }

    /// Record a fact from the collection-membership oracle for a fresh asset,
    /// together with its initial custody: the owner's holding account is
    /// created with the asset's single unit. Fails with `AlreadyExists`
    /// exactly when the asset is already recorded.
    pub fn register_asset(
        &mut self,
        owner: Pubkey,
        mint: Pubkey,
        collection_mint: Pubkey,
        verified: bool,
    ) -> (r: Result<(), ReNFTError>)
        requires
            wf(old(self)@),
        ensures
            wf(final(self)@),
            final(self)@ == register_asset_t(old(self)@, owner, mint, collection_mint, verified).0,
            r == register_asset_t(old(self)@, owner, mint, collection_mint, verified).1,
            (r is Ok <==> !has_asset(old(self)@, mint)),
            r is Err ==> final(self)@ == old(self)@,
            r is Ok ==> (has_asset(final(self)@, mint) && asset_of(final(self)@, mint)
                == (AssetMetadata { mint, collection_mint, verified }) && account_amount(
                final(self)@,
                owner,
                mint,
            ) == 1),
    {
        proof {
            lemma_register_asset_preserves_wf(old(self)@, owner, mint, collection_mint, verified);
        }
        match self.find_asset(mint) {
            Some(_i) => Err(ReNFTError::AlreadyExists),
            None => {
                self.assets.push(AssetMetadata { mint, collection_mint, verified });
                self.accounts.push(TokenAccount { owner, mint, amount: 1 });
                proof {
                    assert(self@ =~= register_asset_t(
                        old(self)@,
                        owner,
                        mint,
                        collection_mint,
                        verified,
                    ).0);
                    lemma_asset_idx_is(self@, old(self)@.assets.len() as int, mint);
                    lemma_acct_idx_is(self@, old(self)@.accounts.len() as int, owner, mint);
                }
                Ok(())
            },
        }
    }

    /// The fee rate of a marketplace, when it exists.
    pub fn marketplace_fee(&self, marketplace_name: &String) -> (r: Option<u16>)
        requires
            wf(self@),
        ensures
            (r is Some <==> has_mkt(self@, marketplace_name@)),
            has_mkt(self@, marketplace_name@) ==> r == Some(mkt_fee(self@, marketplace_name@)),
    {
        match self.find_marketplace(marketplace_name) {
            Some(i) => {
                proof {
                    lemma_mkt_idx_is(self@, i as int, marketplace_name@);
                }
                Some(self.marketplaces[i].fee)
            },
            None => None,
        }
    }

    /// The administrator of a marketplace, when it exists.
    pub fn marketplace_admin(&self, marketplace_name: &String) -> (r: Option<Pubkey>)
        requires
            wf(self@),
        ensures
            (r is Some <==> has_mkt(self@, marketplace_name@)),
            has_mkt(self@, marketplace_name@) ==> r == Some(mkt_admin(self@, marketplace_name@)),
    {
        match self.find_marketplace(marketplace_name) {
            Some(i) => {
                proof {
                    lemma_mkt_idx_is(self@, i as int, marketplace_name@);
                }
                Some(self.marketplaces[i].admin)
            },
            None => None,
        }
    }

    /// Whether a collection is whitelisted on a marketplace.
    pub fn is_whitelisted(&self, marketplace_name: &String, collection_mint: Pubkey) -> (r: bool)
        ensures
            r == has_dao(self@, marketplace_name@, collection_mint),
    {
        match self.find_dao(marketplace_name, collection_mint) {
            Some(i) => {
                proof {
                    assert(has_dao(self@, marketplace_name@, collection_mint));
                }
                true
            },
            None => false,
        }
    }

    /// The total number of whitelist entries, over all marketplaces.
    pub fn whitelist_size(&self) -> (r: usize)
        ensures
            r == self@.daos.len(),
    {
        self.daos.len()
    }

    /// A snapshot of one listing, when it exists.
    pub fn get_listing(&self, marketplace_name: &String, mint_address: Pubkey) -> (r: Option<
        ListingInfo,
    >)
        requires
            wf(self@),
        ensures
            (r is Some <==> has_listing(self@, marketplace_name@, mint_address)),
            has_listing(self@, marketplace_name@, mint_address) ==> r == Some(
                ListingInfo {
                    seller: listing_of(self@, marketplace_name@, mint_address).seller,
                    mint_address: listing_of(self@, marketplace_name@, mint_address).mint_address,
                    price: listing_of(self@, marketplace_name@, mint_address).price,
                    rental_duration: listing_of(
                        self@,
                        marketplace_name@,
                        mint_address,
                    ).rental_duration,
                    rental: listing_of(self@, marketplace_name@, mint_address).rental,
                },
            ),
    {
        match self.find_listing(marketplace_name, mint_address) {
            Some(i) => {
                proof {
                    lemma_listing_idx_is(self@, i as int, marketplace_name@, mint_address);
                }
                Some(
                    ListingInfo {
                        seller: self.listings[i].seller,
                        mint_address: self.listings[i].mint_address,
                        price: self.listings[i].price,
                        rental_duration: self.listings[i].rental_duration,
                        rental: self.listings[i].rental,
                    },
                )
            },
            None => None,
        }
    }

    /// The number of listing records.
    pub fn listing_count(&self) -> (r: usize)
        ensures
            r == self@.listings.len(),
    {
        self.listings.len()
    }

    /// The balance of one owner in one asset; zero when no account exists.
    pub fn balance_of(&self, owner: Pubkey, mint: Pubkey) -> (r: u64)
        requires
            wf(self@),
        ensures
            r == account_amount(self@, owner, mint),
    {
        match self.find_account(owner, mint) {
            Some(i) => {
                proof {
                    lemma_acct_idx_is(self@, i as int, owner, mint);
                }
                self.accounts[i].amount
            },
            None => 0,
        }
    }

    /// The balance of a listing's escrow vault; zero when no listing exists.
    pub fn vault_balance(&self, marketplace_name: &String, mint_address: Pubkey) -> (r: u64)
        requires
            wf(self@),
        ensures
            has_listing(self@, marketplace_name@, mint_address) ==> r == listing_of(
                self@,
                marketplace_name@,
                mint_address,
            ).vault_amount,
            !has_listing(self@, marketplace_name@, mint_address) ==> r == 0,
    {
        match self.find_listing(marketplace_name, mint_address) {
            Some(i) => {
                proof {
                    lemma_listing_idx_is(self@, i as int, marketplace_name@, mint_address);
                }
                self.listings[i].vault_amount
            },
            None => 0,
        }
    }
}

} // verus!
