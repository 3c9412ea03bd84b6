use vstd::prelude::*;

verus! {

/// The error taxonomy of the marketplace.
///
/// Every operation either fully succeeds or fails with one of these kinds,
/// leaving the ledger state unchanged.
#[derive(Clone, Copy, Debug, PartialEq, Eq, Structural)]
pub enum ReNFTError {
    /// The whitelist of a marketplace has reached its fixed capacity.
    DaoListFull,
    /// A whitelist entry already exists for the (marketplace, collection) pair.
    DaoAlreadyWhitelisted,
    /// The asset's declared collection does not match the collection named in
    /// the authorization check, or the asset is unknown.
    InvalidCollection,
    /// The caller lacks the required authority: an admin mismatch, a caller
    /// that does not hold the asset unit, or an unverified or unwhitelisted
    /// collection.
    UnauthorizedSeller,
    /// A record with the same key already occupies its address.
    AlreadyExists,
}

} // verus!
