//! A peer-to-peer listings marketplace: sellers publish named items with a
//! price, buyers pay the current owner and take the item over, and the
//! creator-owner relists, reprices or closes it.

pub mod address;
pub mod item;
pub mod key;
pub mod laws;
pub mod layout;
pub mod market;
pub mod table;

pub use item::{
    BuyItem, CloseItem, Error, Item, ListItem, MarketplaceError, SetListingStatus,
};
pub use key::Key;
pub use market::{buy_item, close_item, list_item, set_listing_status, Marketplace};
