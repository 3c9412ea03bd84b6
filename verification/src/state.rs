use crate::model::{DaoModel, ListingModel, MarketplaceModel};
use vstd::prelude::*;

verus! {

/// An account or program identity on the host ledger, modelled as a plain
/// number: the addressing scheme itself is an opaque external collaborator,
/// only distinctness of identities matters to the logic.
pub type Pubkey = u64;

/// Fee rates are basis points; a marketplace fee never exceeds this bound.
pub const MAX_FEE_BPS: u16 = 10000;

/// The fixed capacity of each marketplace's collection whitelist.
pub const MAX_WHITELISTED_DAOS: usize = 64;

/// The per-name configuration record of one marketplace: its administrator
/// identity and its fee rate. There is exactly one record per distinct name.
pub struct Marketplace {
    pub name: String,
    pub admin: Pubkey,
    pub fee: u16,
}

impl View for Marketplace {
    type V = MarketplaceModel;

    open spec fn view(&self) -> MarketplaceModel {
        MarketplaceModel { name: self.name@, admin: self.admin, fee: self.fee }
    }
}

/// A whitelist entry: the external authority ("DAO") bound to one collection
/// of one marketplace. Its presence is the sole authorization predicate for
/// listing assets of that collection.
pub struct WhitelistedDao {
    pub marketplace_name: String,
    pub dao_authority: Pubkey,
    pub collection_mint: Pubkey,
}

impl View for WhitelistedDao {
    type V = DaoModel;

    open spec fn view(&self) -> DaoModel {
        DaoModel {
            marketplace_name: self.marketplace_name@,
            dao_authority: self.dao_authority,
            collection_mint: self.collection_mint,
        }
    }
}

/// The rental half of a listing. Carrying the window bounds and the renter
/// together in the `Active` arm makes the all-or-nothing rule structural:
/// the three fields can never be observed partially populated.
#[derive(Clone, Copy, Debug, PartialEq, Eq, Structural)]
pub enum RentalState {
    Idle,
    Active { rental_start: i64, rental_end: i64, current_renter: Pubkey },
}

/// The rental record for one escrowed asset, keyed by (marketplace, asset).
/// `vault_amount` is the balance of the listing's own escrow vault, whose
/// sole authority is the record itself.
pub struct Listing {
    pub marketplace_name: String,
    pub seller: Pubkey,
    pub mint_address: Pubkey,
    pub price: u64,
    pub rental_duration: i64,
    pub rental: RentalState,
    pub vault_amount: u64,
}

impl View for Listing {
    type V = ListingModel;

    open spec fn view(&self) -> ListingModel {
        ListingModel {
            marketplace_name: self.marketplace_name@,
            seller: self.seller,
            mint_address: self.mint_address,
            price: self.price,
            rental_duration: self.rental_duration,
            rental: self.rental,
            vault_amount: self.vault_amount,
        }
    }
}

/// A holding account: the balance of one owner in one asset.
#[derive(Clone, Copy, Debug, PartialEq, Eq, Structural)]
pub struct TokenAccount {
    pub owner: Pubkey,
    pub mint: Pubkey,
    pub amount: u64,
}

/// A fact from the collection-membership oracle: the asset belongs to the
/// given collection, with a flag asserting the membership was verified.
#[derive(Clone, Copy, Debug, PartialEq, Eq, Structural)]
pub struct AssetMetadata {
    pub mint: Pubkey,
    pub collection_mint: Pubkey,
    pub verified: bool,
}

/// A plain-value snapshot of one listing, handed out to callers.
#[derive(Clone, Copy, Debug, PartialEq, Eq, Structural)]
pub struct ListingInfo {
    pub seller: Pubkey,
    pub mint_address: Pubkey,
    pub price: u64,
    pub rental_duration: i64,
    pub rental: RentalState,
}

} // verus!
