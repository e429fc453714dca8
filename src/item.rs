use vstd::prelude::*;

use crate::key::Key;

verus! {

/// Longest name a record may carry, in UTF-8 bytes.
pub const MAX_NAME_LEN: usize = 32;

/// Longest description a record may carry, in UTF-8 bytes.
pub const MAX_DESCRIPTION_LEN: usize = 256;

/// Bytes a record's fields take at their largest: seller, price, listed flag,
/// name and description with their length prefixes, bump and timestamp.
pub const INIT_SPACE: usize = 346;

/// Bytes allocated for a record: the fields and an 8-byte type discriminator.
pub const ITEM_SPACE: usize = 354;

/// A listing record.
#[derive(Debug, PartialEq, Eq)]
pub struct Item {
    /// The current owner; changes on each purchase.
    pub seller: Key,
    pub price: u64,
    /// Whether the item is offered for sale.
    pub list_item: bool,
    pub name: String,
    pub description: String,
    /// The bump byte of the record's address.
    pub bump: u8,
    /// When the record was created.
    pub listed_at: i64,
}

/// The rejections of the marketplace's own rules.
#[derive(Clone, Copy, Debug, PartialEq, Eq, Structural)]
pub enum MarketplaceError {
    NotListed,
    SellerCannotBuy,
    NameTooLong,
    DescriptionTooLong,
    Unauthorized,
}

/// First numeric code of a program's own errors on the ledger.
pub const ERROR_CODE_OFFSET: u32 = 6000;

impl MarketplaceError {
    /// The stable numeric code of the error, in declaration order from 6000.
    pub fn code(&self) -> (r: u32)
        ensures
            r == ERROR_CODE_OFFSET + match *self {
                MarketplaceError::NotListed => 0u32,
                MarketplaceError::SellerCannotBuy => 1,
                MarketplaceError::NameTooLong => 2,
                MarketplaceError::DescriptionTooLong => 3,
                MarketplaceError::Unauthorized => 4,
            },
    {
        match self {
            MarketplaceError::NotListed => ERROR_CODE_OFFSET,
            MarketplaceError::SellerCannotBuy => ERROR_CODE_OFFSET + 1,
            MarketplaceError::NameTooLong => ERROR_CODE_OFFSET + 2,
            MarketplaceError::DescriptionTooLong => ERROR_CODE_OFFSET + 3,
            MarketplaceError::Unauthorized => ERROR_CODE_OFFSET + 4,
        }
    }

    /// The human-readable message of the error.
    pub fn message(&self) -> (r: &'static str)
        ensures
            r@ == match *self {
                MarketplaceError::NotListed => "Item is not listed."@,
                MarketplaceError::SellerCannotBuy => "You can't buy your own item."@,
                MarketplaceError::NameTooLong => "Name exceeds 32 characters."@,
                MarketplaceError::DescriptionTooLong => "Description exceeds 256 characters."@,
                MarketplaceError::Unauthorized => "Only the item owner can perform this action."@,
            },
    {
        match self {
            MarketplaceError::NotListed => "Item is not listed.",
            MarketplaceError::SellerCannotBuy => "You can't buy your own item.",
            MarketplaceError::NameTooLong => "Name exceeds 32 characters.",
            MarketplaceError::DescriptionTooLong => "Description exceeds 256 characters.",
            MarketplaceError::Unauthorized => "Only the item owner can perform this action.",
        }
    }
}

/// Why an operation was refused: by the marketplace's rules, or by the
/// ledger that holds the records and the balances.
#[derive(Clone, Copy, Debug, PartialEq, Eq, Structural)]
pub enum Error {
    Marketplace(MarketplaceError),
    /// A record already lives at the derived address.
    AccountInUse,
    /// No record lives at the given address.
    AccountNotFound,
    /// No address can be derived from the seeds.
    AddressDerivationFailed,
    /// The payer's balance is below the amount to move.
    InsufficientFunds,
    /// The payee's balance would pass the largest `u64`.
    BalanceOverflow,
}

/// The accounts of a listing request.
#[derive(Clone, Copy, Debug)]
pub struct ListItem {
    /// The signer, who creates and owns the record and pays its deposit.
    pub seller: Key,
    /// The ledger's clock when the request runs.
    pub now: i64,
}

/// The accounts of a purchase request.
#[derive(Clone, Copy, Debug)]
pub struct BuyItem {
    /// The signer, who pays.
    pub buyer: Key,
    /// The record's creator, whose key its address is derived from.
    pub seller: Key,
}

/// The accounts of a relist or reprice request.
#[derive(Clone, Copy, Debug)]
pub struct SetListingStatus {
    /// The signer, who must be the record's creator and current owner.
    pub seller: Key,
}

/// The accounts of a close request.
#[derive(Clone, Copy, Debug)]
pub struct CloseItem {
    /// The address of the record to close.
    pub item: Key,
    /// The signer, who must be the record's creator and current owner.
    pub seller: Key,
}

} // verus!
