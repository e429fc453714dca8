use vstd::prelude::*;

use crate::address::item_address_spec;
use crate::item::Item;
use crate::key::Key;
use crate::layout::{
    discriminator_spec, item_layout, layout_determines_record, reads_as, same_record, within_caps,
};
use crate::item::{
    BuyItem, CloseItem, Error, ListItem, MarketplaceError, SetListingStatus,
    MAX_DESCRIPTION_LEN, MAX_NAME_LEN,
};
use crate::market::{
    buy_spec, byte_len, close_spec, list_spec, set_status_spec, MarketState,
};

verus! {

/// Deriving an address twice from the same program, creator and name gives
/// the same address and the same bump byte.
pub proof fn derivation_is_deterministic(
    program_id: Seq<u8>,
    creator: Seq<u8>,
    name: Seq<char>,
    first: Option<(Key, u8)>,
    second: Option<(Key, u8)>,
)
    requires
        match first {
            Some((a, b)) => item_address_spec(program_id, creator, name) == Some((a@, b)),
            None => item_address_spec(program_id, creator, name) is None,
        },
        match second {
            Some((a, b)) => item_address_spec(program_id, creator, name) == Some((a@, b)),
            None => item_address_spec(program_id, creator, name) is None,
        },
    ensures
        match (first, second) {
            (Some((a1, b1)), Some((a2, b2))) => a1@ == a2@ && b1 == b2,
            (None, None) => true,
            _ => false,
        },
{
}

/// Once a seller has listed a name, listing the same name again fails while
/// the first record stands; with a description within its cap it fails
/// because the address is taken.
pub proof fn second_listing_fails(
    s: MarketState,
    first: ListItem,
    second: ListItem,
    name: String,
    again: String,
    description: String,
    other_description: String,
    price: u64,
    other_price: u64,
)
    requires
        first.seller@ == second.seller@,
        name@ == again@,
        list_spec(s, first, name, description, price) is Ok,
    ensures
        list_spec(
            list_spec(s, first, name, description, price)->Ok_0,
            second,
            again,
            other_description,
            other_price,
        ) is Err,
        byte_len(other_description@) <= MAX_DESCRIPTION_LEN ==> list_spec(
            list_spec(s, first, name, description, price)->Ok_0,
            second,
            again,
            other_description,
            other_price,
        ) == Err::<MarketState, Error>(Error::AccountInUse),
{
    let (address, bump) = item_address_spec(s.program_id, first.seller@, name@)->Some_0;
    let after = list_spec(s, first, name, description, price)->Ok_0;
    assert(after.records.contains_key(address));
}

/// Listing a name fails while a record stands at the address derived from
/// the seller and that name.
pub proof fn listing_over_a_standing_record_fails(
    s: MarketState,
    ctx: ListItem,
    name: String,
    description: String,
    price: u64,
)
    requires
        item_address_spec(s.program_id, ctx.seller@, name@) is Some,
        s.records.contains_key(item_address_spec(s.program_id, ctx.seller@, name@)->Some_0.0),
    ensures
        list_spec(s, ctx, name, description, price) is Err,
{
}

/// Purchases and status changes keep every record where it stands: only a
/// close takes one away.
pub proof fn only_close_removes_records(
    s: MarketState,
    buy: BuyItem,
    status: SetListingStatus,
    name: Seq<char>,
    list_item: bool,
    new_price: Option<u64>,
)
    ensures
        buy_spec(s, buy, name) matches Ok(after) ==> after.records.dom() == s.records.dom(),
        set_status_spec(s, status, name, list_item, new_price) matches Ok(after)
            ==> after.records.dom() == s.records.dom(),
{
    if let Ok(after) = buy_spec(s, buy, name) {
        let address = item_address_spec(s.program_id, buy.seller@, name)->Some_0.0;
        assert(after.records.dom() =~= s.records.dom().insert(address));
        assert(after.records.dom() =~= s.records.dom());
    }
    if let Ok(after) = set_status_spec(s, status, name, list_item, new_price) {
        let address = item_address_spec(s.program_id, status.seller@, name)->Some_0.0;
        assert(after.records.dom() =~= s.records.dom().insert(address));
        assert(after.records.dom() =~= s.records.dom());
    }
}

/// A name over 32 bytes is refused as too long; a name within its cap with a
/// description over 256 bytes is refused as too long; within both caps
/// neither error comes.
pub proof fn length_caps(
    s: MarketState,
    ctx: ListItem,
    name: String,
    description: String,
    price: u64,
)
    ensures
        byte_len(name@) > MAX_NAME_LEN ==> list_spec(s, ctx, name, description, price) == Err::<
            MarketState,
            Error,
        >(Error::Marketplace(MarketplaceError::NameTooLong)),
        byte_len(name@) <= MAX_NAME_LEN && byte_len(description@) > MAX_DESCRIPTION_LEN
            ==> list_spec(s, ctx, name, description, price) == Err::<MarketState, Error>(
            Error::Marketplace(MarketplaceError::DescriptionTooLong),
        ),
        byte_len(name@) <= MAX_NAME_LEN && byte_len(description@) <= MAX_DESCRIPTION_LEN
            ==> list_spec(s, ctx, name, description, price) != Err::<MarketState, Error>(
            Error::Marketplace(MarketplaceError::NameTooLong),
        ) && list_spec(s, ctx, name, description, price) != Err::<MarketState, Error>(
            Error::Marketplace(MarketplaceError::DescriptionTooLong),
        ),
{
}

/// The current owner of a listed record cannot buy it.
pub proof fn owner_cannot_buy(s: MarketState, ctx: BuyItem, name: Seq<char>)
    requires
        item_address_spec(s.program_id, ctx.seller@, name) is Some,
        s.records.contains_key(item_address_spec(s.program_id, ctx.seller@, name)->Some_0.0),
        s.records[item_address_spec(s.program_id, ctx.seller@, name)->Some_0.0].list_item,
        s.records[item_address_spec(s.program_id, ctx.seller@, name)->Some_0.0].seller@
            == ctx.buyer@,
    ensures
        buy_spec(s, ctx, name) == Err::<MarketState, Error>(
            Error::Marketplace(MarketplaceError::SellerCannotBuy),
        ),
{
}

/// A record that is off sale cannot be bought.
pub proof fn unlisted_cannot_be_bought(s: MarketState, ctx: BuyItem, name: Seq<char>)
    requires
        item_address_spec(s.program_id, ctx.seller@, name) is Some,
        s.records.contains_key(item_address_spec(s.program_id, ctx.seller@, name)->Some_0.0),
        !s.records[item_address_spec(s.program_id, ctx.seller@, name)->Some_0.0].list_item,
    ensures
        buy_spec(s, ctx, name) == Err::<MarketState, Error>(
            Error::Marketplace(MarketplaceError::NotListed),
        ),
{
}

/// A purchase that succeeds makes the buyer the owner and moves exactly the
/// price from the buyer to the previous owner, touching no other balance; a
/// buyer who holds less than the price is refused.
pub proof fn purchase_moves_exactly_the_price(s: MarketState, ctx: BuyItem, name: Seq<char>)
    requires
        item_address_spec(s.program_id, ctx.seller@, name) is Some,
        s.records.contains_key(item_address_spec(s.program_id, ctx.seller@, name)->Some_0.0),
    ensures
        ({
            let address = item_address_spec(s.program_id, ctx.seller@, name)->Some_0.0;
            let before = s.records[address];
            &&& s.balance(ctx.buyer@) < before.price ==> buy_spec(s, ctx, name) is Err
            &&& buy_spec(s, ctx, name) matches Ok(after) ==> {
                &&& after.records.contains_key(address)
                &&& after.records[address].seller@ == ctx.buyer@
                &&& after.balance(ctx.buyer@) == s.balance(ctx.buyer@) - before.price
                &&& after.balance(before.seller@) == s.balance(before.seller@) + before.price
                &&& forall|k: Seq<u8>|
                    k != ctx.buyer@ && k != before.seller@ ==> #[trigger] after.balance(k)
                        == s.balance(k)
            }
        }),
{
}

/// Relisting or repricing succeeds exactly when the signer created the record
/// under that name and owns it now; otherwise it is refused as unauthorized.
pub proof fn set_status_needs_creator_owner(
    s: MarketState,
    ctx: SetListingStatus,
    name: Seq<char>,
    list_item: bool,
    new_price: Option<u64>,
)
    requires
        item_address_spec(s.program_id, ctx.seller@, name) is Some,
    ensures
        ({
            let address = item_address_spec(s.program_id, ctx.seller@, name)->Some_0.0;
            if s.records.contains_key(address) && s.records[address].seller@ == ctx.seller@ {
                set_status_spec(s, ctx, name, list_item, new_price) is Ok
            } else {
                set_status_spec(s, ctx, name, list_item, new_price) == Err::<MarketState, Error>(
                    Error::Marketplace(MarketplaceError::Unauthorized),
                )
            }
        }),
{
}

/// Closing succeeds exactly when the record's address is derived from the
/// signer and its name and the signer owns it now, given that the refund
/// fits the signer's balance; otherwise it is refused as unauthorized.
pub proof fn close_needs_creator_owner(s: MarketState, ctx: CloseItem)
    requires
        s.records.contains_key(ctx.item@),
        item_address_spec(s.program_id, ctx.seller@, s.records[ctx.item@].name@) is Some,
        s.balance(ctx.seller@) + s.deposit <= u64::MAX,
    ensures
        ({
            let address = item_address_spec(
                s.program_id,
                ctx.seller@,
                s.records[ctx.item@].name@,
            )->Some_0.0;
            if address == ctx.item@ && s.records[ctx.item@].seller@ == ctx.seller@ {
                close_spec(s, ctx) is Ok
            } else {
                close_spec(s, ctx) == Err::<MarketState, Error>(
                    Error::Marketplace(MarketplaceError::Unauthorized),
                )
            }
        }),
{
}

/// After a close the record is gone, the signer holds the deposit again, and
/// the signer can list the same name anew.
pub proof fn close_frees_the_name(
    s: MarketState,
    ctx: CloseItem,
    relist: ListItem,
    name: String,
    description: String,
    price: u64,
)
    requires
        s.inv(),
        close_spec(s, ctx) is Ok,
        relist.seller@ == ctx.seller@,
        s.records.contains_key(ctx.item@),
        name@ == s.records[ctx.item@].name@,
        byte_len(description@) <= MAX_DESCRIPTION_LEN,
    ensures
        !close_spec(s, ctx)->Ok_0.records.contains_key(ctx.item@),
        close_spec(s, ctx)->Ok_0.balance(ctx.seller@) == s.balance(ctx.seller@) + s.deposit,
        list_spec(close_spec(s, ctx)->Ok_0, relist, name, description, price) is Ok,
{
    let after = close_spec(s, ctx)->Ok_0;
    assert(after.balance(ctx.seller@) == s.balance(ctx.seller@) + s.deposit);
}

/// Reading back the bytes under which a record within its caps is stored,
/// with anything after them, gives a record that holds the same values.
pub proof fn stored_record_reads_back(item: Item, rest: Seq<u8>, read: Option<Item>)
    requires
        discriminator_spec("Item"@).len() == 8,
        within_caps(item),
        reads_as(item_layout(discriminator_spec("Item"@), item) + rest, read),
    ensures
        read matches Some(back) && same_record(back, item),
{
    let stored = item_layout(discriminator_spec("Item"@), item) + rest;
    assert(stored.subrange(0, item_layout(discriminator_spec("Item"@), item).len() as int)
        =~= item_layout(discriminator_spec("Item"@), item));
    if let Some(back) = read {
        layout_determines_record(discriminator_spec("Item"@), back, item, stored);
    }
}

} // verus!
