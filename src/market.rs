use vstd::prelude::*;
use vstd::utf8::encode_utf8;

use crate::address::{item_address, item_address_spec};
use crate::item::{
    BuyItem, CloseItem, Error, Item, ListItem, MarketplaceError, SetListingStatus,
    MAX_DESCRIPTION_LEN, MAX_NAME_LEN,
};
use crate::key::Key;
use crate::table::Table;

verus! {

/// Length of a text in UTF-8 bytes.
pub open spec fn byte_len(s: Seq<char>) -> nat {
    encode_utf8(s).len()
}

/// What a key holds on the ledger; a key never credited holds nothing.
pub open spec fn balance_in(balances: Map<Seq<u8>, u64>, who: Seq<u8>) -> u64 {
    if balances.contains_key(who) {
        balances[who]
    } else {
        0
    }
}

/// The balances after crediting `amount` to `who`, or the overflow that
/// refuses it.
pub open spec fn credit_spec(balances: Map<Seq<u8>, u64>, who: Seq<u8>, amount: u64) -> Result<
    Map<Seq<u8>, u64>,
    Error,
> {
    if balance_in(balances, who) + amount > u64::MAX {
        Err(Error::BalanceOverflow)
    } else {
        Ok(balances.insert(who, (balance_in(balances, who) + amount) as u64))
    }
}

/// The balances after moving `amount` from `from` to `to`, or why the ledger
/// refuses the move.
pub open spec fn transfer_spec(
    balances: Map<Seq<u8>, u64>,
    from: Seq<u8>,
    to: Seq<u8>,
    amount: u64,
) -> Result<Map<Seq<u8>, u64>, Error> {
    if balance_in(balances, from) < amount {
        Err(Error::InsufficientFunds)
    } else if from == to {
        Ok(balances)
    } else {
        credit_spec(
            balances.insert(from, (balance_in(balances, from) - amount) as u64),
            to,
            amount,
        )
    }
}

/// The marketplace as a value: its configuration, the records by address and
/// the balances by key.
pub struct MarketState {
    pub program_id: Seq<u8>,
    /// The storage deposit that a record's creator pays and its closer gets back.
    pub deposit: u64,
    /// Whether a purchase takes the item off sale.
    pub clear_listing_on_buy: bool,
    pub records: Map<Seq<u8>, Item>,
    pub balances: Map<Seq<u8>, u64>,
}

impl MarketState {
    pub open spec fn balance(self, who: Seq<u8>) -> u64 {
        balance_in(self.balances, who)
    }

    /// Every record's name and description fit their caps.
    pub open spec fn inv(self) -> bool {
        forall|a: Seq<u8>| #[trigger]
            self.records.contains_key(a) ==> {
                &&& byte_len(self.records[a].name@) <= MAX_NAME_LEN
                &&& byte_len(self.records[a].description@) <= MAX_DESCRIPTION_LEN
            }
    }
}

/// The outcome of a listing: a new record at the address derived from the
/// seller and the name, listed, with the seller's deposit taken.
pub open spec fn list_spec(
    s: MarketState,
    ctx: ListItem,
    name: String,
    description: String,
    price: u64,
) -> Result<MarketState, Error> {
    if byte_len(name@) > MAX_NAME_LEN {
        Err(Error::Marketplace(MarketplaceError::NameTooLong))
    } else if byte_len(description@) > MAX_DESCRIPTION_LEN {
        Err(Error::Marketplace(MarketplaceError::DescriptionTooLong))
    } else {
        match item_address_spec(s.program_id, ctx.seller@, name@) {
            None => Err(Error::AddressDerivationFailed),
            Some((address, bump)) => {
                if s.records.contains_key(address) {
                    Err(Error::AccountInUse)
                } else if s.balance(ctx.seller@) < s.deposit {
                    Err(Error::InsufficientFunds)
                } else {
                    let item = Item {
                        seller: ctx.seller,
                        price,
                        list_item: true,
                        name,
                        description,
                        bump,
                        listed_at: ctx.now,
                    };
                    Ok(
                        MarketState {
                            records: s.records.insert(address, item),
                            balances: s.balances.insert(
                                ctx.seller@,
                                (s.balance(ctx.seller@) - s.deposit) as u64,
                            ),
                            ..s
                        },
                    )
                }
            },
        }
    }
}

/// The outcome of a purchase: the price moves from the buyer to the current
/// owner and the buyer becomes the owner, or nothing changes.
pub open spec fn buy_spec(s: MarketState, ctx: BuyItem, name: Seq<char>) -> Result<MarketState, Error> {
    match item_address_spec(s.program_id, ctx.seller@, name) {
        None => Err(Error::AddressDerivationFailed),
        Some((address, _)) => {
            if !s.records.contains_key(address) {
                Err(Error::AccountNotFound)
            } else {
                let item = s.records[address];
                if !item.list_item {
                    Err(Error::Marketplace(MarketplaceError::NotListed))
                } else if ctx.buyer@ == item.seller@ {
                    Err(Error::Marketplace(MarketplaceError::SellerCannotBuy))
                } else {
                    match transfer_spec(s.balances, ctx.buyer@, item.seller@, item.price) {
                        Err(e) => Err(e),
                        Ok(balances) => {
                            let bought = Item {
                                seller: ctx.buyer,
                                list_item: item.list_item && !s.clear_listing_on_buy,
                                ..item
                            };
                            Ok(
                                MarketState {
                                    records: s.records.insert(address, bought),
                                    balances,
                                    ..s
                                },
                            )
                        },
                    }
                }
            }
        },
    }
}

/// The outcome of a relist or reprice by the creator-owner.
pub open spec fn set_status_spec(
    s: MarketState,
    ctx: SetListingStatus,
    name: Seq<char>,
    list_item: bool,
    new_price: Option<u64>,
) -> Result<MarketState, Error> {
    match item_address_spec(s.program_id, ctx.seller@, name) {
        None => Err(Error::AddressDerivationFailed),
        Some((address, _)) => {
            if !s.records.contains_key(address) || s.records[address].seller@ != ctx.seller@ {
                Err(Error::Marketplace(MarketplaceError::Unauthorized))
            } else {
                let item = s.records[address];
                let updated = Item {
                    list_item,
                    price: match new_price {
                        Some(p) => p,
                        None => item.price,
                    },
                    ..item
                };
                Ok(MarketState { records: s.records.insert(address, updated), ..s })
            }
        },
    }
}

/// The outcome of a close by the creator-owner: the record is gone and its
/// deposit goes back to the signer.
pub open spec fn close_spec(s: MarketState, ctx: CloseItem) -> Result<MarketState, Error> {
    if !s.records.contains_key(ctx.item@) {
        Err(Error::AccountNotFound)
    } else {
        let item = s.records[ctx.item@];
        match item_address_spec(s.program_id, ctx.seller@, item.name@) {
            None => Err(Error::AddressDerivationFailed),
            Some((address, _)) => {
                if address != ctx.item@ || item.seller@ != ctx.seller@ {
                    Err(Error::Marketplace(MarketplaceError::Unauthorized))
                } else {
                    match credit_spec(s.balances, ctx.seller@, s.deposit) {
                        Err(e) => Err(e),
                        Ok(balances) => Ok(
                            MarketState { records: s.records.remove(ctx.item@), balances, ..s },
                        ),
                    }
                }
            },
        }
    }
}

/// The records of one program and the balances of the keys that trade in
/// them.
pub struct Marketplace {
    program_id: Key,
    deposit: u64,
    clear_listing_on_buy: bool,
    records: Table<Item>,
    balances: Table<u64>,
}

impl View for Marketplace {
    type V = MarketState;

    closed spec fn view(&self) -> MarketState {
        MarketState {
            program_id: self.program_id@,
            deposit: self.deposit,
            clear_listing_on_buy: self.clear_listing_on_buy,
            records: self.records@,
            balances: self.balances@,
        }
    }
}

impl Marketplace {
    pub closed spec fn wf(&self) -> bool {
        &&& self.records.wf()
        &&& self.balances.wf()
        &&& self@.inv()
    }

    /// An empty marketplace of the program `program_id`, whose records each
    /// take `deposit` from their creator; `clear_listing_on_buy` chooses
    /// whether a purchase takes the item off sale.
    pub fn new(program_id: Key, deposit: u64, clear_listing_on_buy: bool) -> (m: Marketplace)
        ensures
            m.wf(),
            m@ == (MarketState {
                program_id: program_id@,
                deposit,
                clear_listing_on_buy,
                records: Map::empty(),
                balances: Map::empty(),
            }),
    {
        Marketplace {
            program_id,
            deposit,
            clear_listing_on_buy,
            records: Table::new(),
            balances: Table::new(),
        }
    }

    pub fn program_id(&self) -> (r: Key)
        ensures
            r@ == self@.program_id,
    {
        self.program_id
    }

    pub fn deposit(&self) -> (r: u64)
        ensures
            r == self@.deposit,
    {
        self.deposit
    }

    pub fn balance(&self, who: &Key) -> (r: u64)
        requires
            self.wf(),
        ensures
            r == self@.balance(who@),
    {
        match self.balances.get(who) {
            Some(b) => *b,
            None => 0,
        }
    }

    /// The record at `address`, if one lives there.
    pub fn item(&self, address: &Key) -> (r: Option<&Item>)
        requires
            self.wf(),
        ensures
            match r {
                Some(it) => self@.records.contains_key(address@) && *it == self@.records[address@],
                None => !self@.records.contains_key(address@),
            },
    {
        self.records.get(address)
    }

    /// Where the record that `creator` made under `name` lives, and its bump.
    pub fn derive(&self, creator: &Key, name: &str) -> (r: Option<(Key, u8)>)
        ensures
            match r {
                Some((a, b)) => item_address_spec(self@.program_id, creator@, name@) == Some((a@, b)),
                None => item_address_spec(self@.program_id, creator@, name@) is None,
            },
    {
        item_address(&self.program_id, creator, name)
    }

    /// Adds `amount` to what `who` holds.
    pub fn credit(&mut self, who: Key, amount: u64) -> (r: Result<(), Error>)
        requires
            old(self).wf(),
        ensures
            final(self).wf(),
            match credit_spec(old(self)@.balances, who@, amount) {
                Ok(b) => r is Ok && final(self)@ == (MarketState { balances: b, ..old(self)@ }),
                Err(e) => r == Err::<(), Error>(e) && final(self)@ == old(self)@,
            },
    {
        let held = self.balance(&who);
        if held > u64::MAX - amount {
            return Err(Error::BalanceOverflow);
        }
        self.balances.insert(who, held + amount);
        assert(self@.records == old(self)@.records);
        Ok(())
    }

    /// Moves `amount` from `from` to `to`: both balances change, or neither.
    pub fn transfer(&mut self, from: Key, to: Key, amount: u64) -> (r: Result<(), Error>)
        requires
            old(self).wf(),
        ensures
            final(self).wf(),
            match transfer_spec(old(self)@.balances, from@, to@, amount) {
                Ok(b) => r is Ok && final(self)@ == (MarketState { balances: b, ..old(self)@ }),
                Err(e) => r == Err::<(), Error>(e) && final(self)@ == old(self)@,
            },
    {
        let held = self.balance(&from);
        if held < amount {
            return Err(Error::InsufficientFunds);
        }
        if from == to {
            return Ok(());
        }
        let payee = self.balance(&to);
        if payee > u64::MAX - amount {
            return Err(Error::BalanceOverflow);
        }
        self.balances.insert(from, held - amount);
        proof {
            assert(self@.balance(to@) == payee);
        }
        self.balances.insert(to, payee + amount);
        assert(self@.records == old(self)@.records);
        Ok(())
    }
}

/// Publishes `name` for sale at `price`, owned by the signer, at the address
/// derived from the signer and the name; the signer pays the deposit.
pub fn list_item(
    market: &mut Marketplace,
    ctx: ListItem,
    name: String,
    description: String,
    price: u64,
) -> (r: Result<(), Error>)
    requires
        old(market).wf(),
    ensures
        final(market).wf(),
        match list_spec(old(market)@, ctx, name, description, price) {
            Ok(s) => r is Ok && final(market)@ == s,
            Err(e) => r == Err::<(), Error>(e) && final(market)@ == old(market)@,
        },
{
    if name.as_str().as_bytes().len() > MAX_NAME_LEN {
        return Err(Error::Marketplace(MarketplaceError::NameTooLong));
    }
    if description.as_str().as_bytes().len() > MAX_DESCRIPTION_LEN {
        return Err(Error::Marketplace(MarketplaceError::DescriptionTooLong));
    }
    let (address, bump) = match market.derive(&ctx.seller, name.as_str()) {
        Some(found) => found,
        None => {
            return Err(Error::AddressDerivationFailed);
        },
    };
    match market.records.get(&address) {
        Some(_) => {
            return Err(Error::AccountInUse);
        },
        None => {},
    }
    let held = market.balance(&ctx.seller);
    if held < market.deposit {
        return Err(Error::InsufficientFunds);
    }
    let item = Item {
        seller: ctx.seller,
        price,
        list_item: true,
        name,
        description,
        bump,
        listed_at: ctx.now,
    };
    let ghost item_v = item;
    market.balances.insert(ctx.seller, held - market.deposit);
    market.records.insert(address, item);
    proof {
        assert(market@.records == old(market)@.records.insert(address@, item_v));
    }
    Ok(())
}

/// Pays the current owner the price of the record that `ctx.seller` made
/// under `name`, and hands the record to the buyer.
pub fn buy_item(market: &mut Marketplace, ctx: BuyItem, name: String) -> (r: Result<(), Error>)
    requires
        old(market).wf(),
    ensures
        final(market).wf(),
        match buy_spec(old(market)@, ctx, name@) {
            Ok(s) => r is Ok && final(market)@ == s,
            Err(e) => r == Err::<(), Error>(e) && final(market)@ == old(market)@,
        },
{
    let (address, _) = match market.derive(&ctx.seller, name.as_str()) {
        Some(found) => found,
        None => {
            return Err(Error::AddressDerivationFailed);
        },
    };
    let (listed, owner, price) = match market.records.get(&address) {
        Some(item) => (item.list_item, item.seller, item.price),
        None => {
            return Err(Error::AccountNotFound);
        },
    };
    if !listed {
        return Err(Error::Marketplace(MarketplaceError::NotListed));
    }
    if ctx.buyer == owner {
        return Err(Error::Marketplace(MarketplaceError::SellerCannotBuy));
    }
    match market.transfer(ctx.buyer, owner, price) {
        Ok(()) => {},
        Err(e) => {
            return Err(e);
        },
    }
    let ghost paid = market@;
    let mut item = match market.records.remove(&address) {
        Some(item) => item,
        None => {
            proof {
                assert(paid.records.contains_key(address@));
            }
            return Err(Error::AccountNotFound);
        },
    };
    item.seller = ctx.buyer;
    if market.clear_listing_on_buy {
        item.list_item = false;
    }
    let ghost bought = item;
    market.records.insert(address, item);
    proof {
        assert(market@.records =~= paid.records.insert(address@, bought));
        assert(market@.inv());
    }
    Ok(())
}

/// Lets the creator-owner take `name` off sale or put it back, and set a new
/// price.
pub fn set_listing_status(
    market: &mut Marketplace,
    ctx: SetListingStatus,
    name: String,
    list_item: bool,
    new_price: Option<u64>,
) -> (r: Result<(), Error>)
    requires
        old(market).wf(),
    ensures
        final(market).wf(),
        match set_status_spec(old(market)@, ctx, name@, list_item, new_price) {
            Ok(s) => r is Ok && final(market)@ == s,
            Err(e) => r == Err::<(), Error>(e) && final(market)@ == old(market)@,
        },
{
    let (address, _) = match market.derive(&ctx.seller, name.as_str()) {
        Some(found) => found,
        None => {
            return Err(Error::AddressDerivationFailed);
        },
    };
    let owner = match market.records.get(&address) {
        Some(item) => item.seller,
        None => {
            return Err(Error::Marketplace(MarketplaceError::Unauthorized));
        },
    };
    if owner != ctx.seller {
        return Err(Error::Marketplace(MarketplaceError::Unauthorized));
    }
    let mut item = match market.records.remove(&address) {
        Some(item) => item,
        None => {
            return Err(Error::Marketplace(MarketplaceError::Unauthorized));
        },
    };
    item.list_item = list_item;
    match new_price {
        Some(p) => {
            item.price = p;
        },
        None => {},
    }
    let ghost updated = item;
    market.records.insert(address, item);
    proof {
        assert(market@.records =~= old(market)@.records.insert(address@, updated));
        assert(market@.inv());
    }
    Ok(())
}

/// Lets the creator-owner close the record at `ctx.item`; its deposit goes
/// back to the signer.
pub fn close_item(market: &mut Marketplace, ctx: CloseItem) -> (r: Result<(), Error>)
    requires
        old(market).wf(),
    ensures
        final(market).wf(),
        match close_spec(old(market)@, ctx) {
            Ok(s) => r is Ok && final(market)@ == s,
            Err(e) => r == Err::<(), Error>(e) && final(market)@ == old(market)@,
        },
{
    let (derived, owner) = match market.records.get(&ctx.item) {
        Some(item) => (market.derive(&ctx.seller, item.name.as_str()), item.seller),
        None => {
            return Err(Error::AccountNotFound);
        },
    };
    let address = match derived {
        Some((address, _)) => address,
        None => {
            return Err(Error::AddressDerivationFailed);
        },
    };
    if address != ctx.item || owner != ctx.seller {
        return Err(Error::Marketplace(MarketplaceError::Unauthorized));
    }
    match market.credit(ctx.seller, market.deposit) {
        Ok(()) => {},
        Err(e) => {
            return Err(e);
        },
    }
    let ghost refunded = market@;
    let _ = market.records.remove(&ctx.item);
    proof {
        assert(market@.records =~= refunded.records.remove(ctx.item@));
        assert(market@.inv());
    }
    Ok(())
}

} // verus!
