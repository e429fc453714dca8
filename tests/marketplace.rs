use marketplace::item::{ERROR_CODE_OFFSET, ITEM_SPACE, INIT_SPACE};
use marketplace::{
    buy_item, close_item, list_item, set_listing_status, BuyItem, CloseItem, Error, Key,
    ListItem, Marketplace, MarketplaceError, SetListingStatus,
};

const DEPOSIT: u64 = 3_354_720;
const T0: i64 = 1_700_000_000;

fn program() -> Key {
    Key::new([7u8; 32])
}

fn alice() -> Key {
    Key::new([1u8; 32])
}

fn bob() -> Key {
    Key::new([2u8; 32])
}

fn carol() -> Key {
    Key::new([3u8; 32])
}

fn funded(clear_listing_on_buy: bool) -> Marketplace {
    let mut m = Marketplace::new(program(), DEPOSIT, clear_listing_on_buy);
    m.credit(alice(), 100_000_000).unwrap();
    m.credit(bob(), 100_000_000).unwrap();
    m.credit(carol(), 100_000_000).unwrap();
    m
}

fn list(m: &mut Marketplace, who: Key, name: &str, description: &str, price: u64) -> Result<(), Error> {
    list_item(m, ListItem { seller: who, now: T0 }, name.to_string(), description.to_string(), price)
}

fn address(m: &Marketplace, creator: Key, name: &str) -> Key {
    m.derive(&creator, name).unwrap().0
}

fn buy(m: &mut Marketplace, buyer: Key, creator: Key, name: &str) -> Result<(), Error> {
    buy_item(m, BuyItem { buyer, seller: creator }, name.to_string())
}

#[test]
fn alice_lists_a_book() {
    let mut m = funded(false);
    assert_eq!(list(&mut m, alice(), "book", "N/A", 1_000_000), Ok(()));
    let (at, bump) = m.derive(&alice(), "book").unwrap();
    let item = m.item(&at).unwrap();
    assert_eq!(item.seller, alice());
    assert!(item.list_item);
    assert_eq!(item.price, 1_000_000);
    assert_eq!(item.name, "book");
    assert_eq!(item.description, "N/A");
    assert_eq!(item.bump, bump);
    assert_eq!(item.listed_at, T0);
    assert_eq!(m.balance(&alice()), 100_000_000 - DEPOSIT);
}

#[test]
fn bob_buys_the_book() {
    let mut m = funded(false);
    list(&mut m, alice(), "book", "N/A", 1_000_000).unwrap();
    let alice_before = m.balance(&alice());
    let bob_before = m.balance(&bob());
    assert_eq!(buy(&mut m, bob(), alice(), "book"), Ok(()));
    assert_eq!(m.balance(&bob()), bob_before - 1_000_000);
    assert_eq!(m.balance(&alice()), alice_before + 1_000_000);
    let item = m.item(&address(&m, alice(), "book")).unwrap();
    assert_eq!(item.seller, bob());
    assert!(item.list_item);
}

#[test]
fn new_owner_cannot_relist_a_record_made_by_another() {
    let mut m = funded(false);
    list(&mut m, alice(), "book", "N/A", 1_000_000).unwrap();
    buy(&mut m, bob(), alice(), "book").unwrap();
    let r = set_listing_status(&mut m, SetListingStatus { seller: bob() }, "book".to_string(), false, None);
    assert_eq!(r, Err(Error::Marketplace(MarketplaceError::Unauthorized)));
    assert!(m.item(&address(&m, alice(), "book")).unwrap().list_item);
}

#[test]
fn creator_can_buy_back_a_record_still_listed() {
    let mut m = funded(false);
    list(&mut m, alice(), "book", "N/A", 1_000_000).unwrap();
    buy(&mut m, bob(), alice(), "book").unwrap();
    let bob_before = m.balance(&bob());
    assert_eq!(buy(&mut m, alice(), alice(), "book"), Ok(()));
    assert_eq!(m.balance(&bob()), bob_before + 1_000_000);
    assert_eq!(m.item(&address(&m, alice(), "book")).unwrap().seller, alice());
}

#[test]
fn pen_is_repriced_and_closed() {
    let mut m = funded(false);
    list(&mut m, alice(), "pen", "ink", 500).unwrap();
    let at = address(&m, alice(), "pen");
    let r = set_listing_status(&mut m, SetListingStatus { seller: alice() }, "pen".to_string(), true, Some(700));
    assert_eq!(r, Ok(()));
    assert_eq!(m.item(&at).unwrap().price, 700);
    assert!(m.item(&at).unwrap().list_item);
    assert_eq!(close_item(&mut m, CloseItem { item: at, seller: alice() }), Ok(()));
    assert!(m.item(&at).is_none());
    assert_eq!(m.balance(&alice()), 100_000_000);
}

#[test]
fn listing_the_same_name_twice_fails() {
    let mut m = funded(false);
    list(&mut m, alice(), "book", "N/A", 1_000_000).unwrap();
    let held = m.balance(&alice());
    assert_eq!(list(&mut m, alice(), "book", "other", 5), Err(Error::AccountInUse));
    assert_eq!(m.balance(&alice()), held);
    assert_eq!(m.item(&address(&m, alice(), "book")).unwrap().description, "N/A");
}

#[test]
fn same_name_by_another_creator_is_another_record() {
    let mut m = funded(false);
    list(&mut m, alice(), "book", "N/A", 1_000_000).unwrap();
    assert_eq!(list(&mut m, bob(), "book", "mine", 9), Ok(()));
    assert_ne!(address(&m, alice(), "book"), address(&m, bob(), "book"));
    assert_eq!(m.item(&address(&m, bob(), "book")).unwrap().seller, bob());
}

#[test]
fn name_caps_count_bytes() {
    let mut m = funded(false);
    let long = "a".repeat(33);
    assert_eq!(list(&mut m, alice(), &long, "", 1), Err(Error::Marketplace(MarketplaceError::NameTooLong)));
    let full = "a".repeat(32);
    assert_eq!(list(&mut m, alice(), &full, "", 1), Ok(()));
    // sixteen two-byte characters fill the cap; one more byte passes it
    let wide = "é".repeat(16);
    assert_eq!(wide.len(), 32);
    assert_eq!(list(&mut m, bob(), &wide, "", 1), Ok(()));
    let wider = format!("{}a", wide);
    assert_eq!(wider.chars().count(), 17);
    assert_eq!(list(&mut m, bob(), &wider, "", 1), Err(Error::Marketplace(MarketplaceError::NameTooLong)));
}

#[test]
fn description_caps_count_bytes() {
    let mut m = funded(false);
    let long = "d".repeat(257);
    assert_eq!(
        list(&mut m, alice(), "item", &long, 1),
        Err(Error::Marketplace(MarketplaceError::DescriptionTooLong))
    );
    let full = "d".repeat(256);
    assert_eq!(list(&mut m, alice(), "item", &full, 1), Ok(()));
    let wide = "ü".repeat(128) + "x";
    assert_eq!(wide.len(), 257);
    assert_eq!(
        list(&mut m, bob(), "item", &wide, 1),
        Err(Error::Marketplace(MarketplaceError::DescriptionTooLong))
    );
}

#[test]
fn name_cap_is_checked_before_description_cap() {
    let mut m = funded(false);
    let r = list(&mut m, alice(), &"n".repeat(40), &"d".repeat(300), 1);
    assert_eq!(r, Err(Error::Marketplace(MarketplaceError::NameTooLong)));
}

#[test]
fn owner_cannot_buy_own_item() {
    let mut m = funded(false);
    list(&mut m, alice(), "book", "N/A", 1_000_000).unwrap();
    let held = m.balance(&alice());
    assert_eq!(buy(&mut m, alice(), alice(), "book"), Err(Error::Marketplace(MarketplaceError::SellerCannotBuy)));
    assert_eq!(m.balance(&alice()), held);
    assert_eq!(m.item(&address(&m, alice(), "book")).unwrap().seller, alice());
}

#[test]
fn unlisted_item_cannot_be_bought() {
    let mut m = funded(false);
    list(&mut m, alice(), "book", "N/A", 1_000_000).unwrap();
    set_listing_status(&mut m, SetListingStatus { seller: alice() }, "book".to_string(), false, None).unwrap();
    assert_eq!(buy(&mut m, bob(), alice(), "book"), Err(Error::Marketplace(MarketplaceError::NotListed)));
    assert_eq!(m.balance(&bob()), 100_000_000);
}

#[test]
fn relisting_makes_it_buyable_again() {
    let mut m = funded(false);
    list(&mut m, alice(), "book", "N/A", 10).unwrap();
    set_listing_status(&mut m, SetListingStatus { seller: alice() }, "book".to_string(), false, None).unwrap();
    set_listing_status(&mut m, SetListingStatus { seller: alice() }, "book".to_string(), true, None).unwrap();
    assert_eq!(m.item(&address(&m, alice(), "book")).unwrap().price, 10);
    assert_eq!(buy(&mut m, bob(), alice(), "book"), Ok(()));
}

#[test]
fn poor_buyer_changes_nothing() {
    let mut m = Marketplace::new(program(), DEPOSIT, false);
    m.credit(alice(), 10_000_000).unwrap();
    m.credit(bob(), 999_999).unwrap();
    list(&mut m, alice(), "book", "N/A", 1_000_000).unwrap();
    let alice_before = m.balance(&alice());
    assert_eq!(buy(&mut m, bob(), alice(), "book"), Err(Error::InsufficientFunds));
    assert_eq!(m.balance(&bob()), 999_999);
    assert_eq!(m.balance(&alice()), alice_before);
    assert_eq!(m.item(&address(&m, alice(), "book")).unwrap().seller, alice());
}

#[test]
fn payment_that_overflows_the_seller_changes_nothing() {
    let mut m = Marketplace::new(program(), 0, false);
    m.credit(alice(), u64::MAX).unwrap();
    m.credit(bob(), 10).unwrap();
    list(&mut m, alice(), "book", "N/A", 10).unwrap();
    assert_eq!(buy(&mut m, bob(), alice(), "book"), Err(Error::BalanceOverflow));
    assert_eq!(m.balance(&bob()), 10);
    assert_eq!(m.item(&address(&m, alice(), "book")).unwrap().seller, alice());
}

#[test]
fn purchase_touches_only_buyer_and_owner() {
    let mut m = funded(false);
    list(&mut m, alice(), "book", "N/A", 250).unwrap();
    assert_eq!(buy(&mut m, bob(), alice(), "book"), Ok(()));
    assert_eq!(m.balance(&carol()), 100_000_000);
    assert_eq!(m.balance(&bob()), 100_000_000 - 250);
    assert_eq!(m.balance(&alice()), 100_000_000 - DEPOSIT + 250);
}

#[test]
fn resale_pays_the_current_owner() {
    let mut m = funded(false);
    list(&mut m, alice(), "book", "N/A", 100).unwrap();
    buy(&mut m, bob(), alice(), "book").unwrap();
    let alice_before = m.balance(&alice());
    assert_eq!(buy(&mut m, carol(), alice(), "book"), Ok(()));
    assert_eq!(m.balance(&bob()), 100_000_000);
    assert_eq!(m.balance(&alice()), alice_before);
    assert_eq!(m.item(&address(&m, alice(), "book")).unwrap().seller, carol());
}

#[test]
fn purchase_can_take_the_item_off_sale() {
    let mut m = funded(true);
    list(&mut m, alice(), "book", "N/A", 100).unwrap();
    assert_eq!(buy(&mut m, bob(), alice(), "book"), Ok(()));
    assert!(!m.item(&address(&m, alice(), "book")).unwrap().list_item);
    assert_eq!(buy(&mut m, carol(), alice(), "book"), Err(Error::Marketplace(MarketplaceError::NotListed)));
}

#[test]
fn buying_a_missing_record_fails() {
    let mut m = funded(false);
    assert_eq!(buy(&mut m, bob(), alice(), "nothing"), Err(Error::AccountNotFound));
}

#[test]
fn creator_who_sold_cannot_relist() {
    let mut m = funded(false);
    list(&mut m, alice(), "book", "N/A", 100).unwrap();
    buy(&mut m, bob(), alice(), "book").unwrap();
    let r = set_listing_status(&mut m, SetListingStatus { seller: alice() }, "book".to_string(), false, Some(1));
    assert_eq!(r, Err(Error::Marketplace(MarketplaceError::Unauthorized)));
    assert_eq!(m.item(&address(&m, alice(), "book")).unwrap().price, 100);
}

#[test]
fn close_by_stranger_or_former_owner_is_unauthorized() {
    let mut m = funded(false);
    list(&mut m, alice(), "book", "N/A", 100).unwrap();
    let at = address(&m, alice(), "book");
    assert_eq!(
        close_item(&mut m, CloseItem { item: at, seller: bob() }),
        Err(Error::Marketplace(MarketplaceError::Unauthorized))
    );
    buy(&mut m, bob(), alice(), "book").unwrap();
    assert_eq!(
        close_item(&mut m, CloseItem { item: at, seller: alice() }),
        Err(Error::Marketplace(MarketplaceError::Unauthorized))
    );
    assert_eq!(
        close_item(&mut m, CloseItem { item: at, seller: bob() }),
        Err(Error::Marketplace(MarketplaceError::Unauthorized))
    );
    assert!(m.item(&at).is_some());
}

#[test]
fn closing_a_missing_record_fails() {
    let mut m = funded(false);
    assert_eq!(close_item(&mut m, CloseItem { item: alice(), seller: alice() }), Err(Error::AccountNotFound));
}

#[test]
fn close_refunds_and_frees_the_name() {
    let mut m = funded(false);
    list(&mut m, alice(), "book", "N/A", 100).unwrap();
    let at = address(&m, alice(), "book");
    assert_eq!(close_item(&mut m, CloseItem { item: at, seller: alice() }), Ok(()));
    assert_eq!(m.balance(&alice()), 100_000_000);
    assert!(m.item(&at).is_none());
    assert_eq!(list(&mut m, alice(), "book", "second edition", 200), Ok(()));
    assert_eq!(m.item(&at).unwrap().description, "second edition");
}

#[test]
fn listing_needs_the_deposit() {
    let mut m = Marketplace::new(program(), DEPOSIT, false);
    m.credit(alice(), DEPOSIT - 1).unwrap();
    assert_eq!(list(&mut m, alice(), "book", "N/A", 1), Err(Error::InsufficientFunds));
    m.credit(alice(), 1).unwrap();
    assert_eq!(list(&mut m, alice(), "book", "N/A", 1), Ok(()));
    assert_eq!(m.balance(&alice()), 0);
}

#[test]
fn derivation_is_repeatable_and_not_the_inputs() {
    let m = funded(false);
    let first = m.derive(&alice(), "book").unwrap();
    let second = m.derive(&alice(), "book").unwrap();
    assert_eq!(first, second);
    assert_ne!(first.0, alice());
    assert_ne!(first.0, program());
    assert_ne!(first.0, m.derive(&alice(), "pen").unwrap().0);
    let other = Marketplace::new(Key::new([8u8; 32]), DEPOSIT, false);
    assert_ne!(first.0, other.derive(&alice(), "book").unwrap().0);
}

#[test]
fn overlong_seed_cannot_be_derived() {
    let mut m = funded(false);
    assert!(m.derive(&alice(), &"x".repeat(33)).is_none());
    assert_eq!(buy(&mut m, bob(), alice(), &"x".repeat(33)), Err(Error::AddressDerivationFailed));
}

#[test]
fn transfer_and_credit() {
    let mut m = Marketplace::new(program(), DEPOSIT, false);
    assert_eq!(m.balance(&alice()), 0);
    assert_eq!(m.credit(alice(), 50), Ok(()));
    assert_eq!(m.transfer(alice(), bob(), 20), Ok(()));
    assert_eq!(m.balance(&alice()), 30);
    assert_eq!(m.balance(&bob()), 20);
    assert_eq!(m.transfer(alice(), bob(), 31), Err(Error::InsufficientFunds));
    assert_eq!(m.transfer(alice(), alice(), 30), Ok(()));
    assert_eq!(m.balance(&alice()), 30);
    assert_eq!(m.credit(bob(), u64::MAX), Err(Error::BalanceOverflow));
    assert_eq!(m.balance(&bob()), 20);
}

#[test]
fn error_codes_and_messages() {
    assert_eq!(ERROR_CODE_OFFSET, 6000);
    assert_eq!(MarketplaceError::NotListed.code(), 6000);
    assert_eq!(MarketplaceError::SellerCannotBuy.code(), 6001);
    assert_eq!(MarketplaceError::NameTooLong.code(), 6002);
    assert_eq!(MarketplaceError::DescriptionTooLong.code(), 6003);
    assert_eq!(MarketplaceError::Unauthorized.code(), 6004);
    assert_eq!(MarketplaceError::NotListed.message(), "Item is not listed.");
    assert_eq!(MarketplaceError::SellerCannotBuy.message(), "You can't buy your own item.");
    assert_eq!(MarketplaceError::NameTooLong.message(), "Name exceeds 32 characters.");
    assert_eq!(MarketplaceError::DescriptionTooLong.message(), "Description exceeds 256 characters.");
    assert_eq!(MarketplaceError::Unauthorized.message(), "Only the item owner can perform this action.");
}

#[test]
fn record_space() {
    assert_eq!(INIT_SPACE, 32 + 8 + 1 + (4 + 32) + (4 + 256) + 1 + 8);
    assert_eq!(ITEM_SPACE, 8 + INIT_SPACE);
}

#[test]
fn discriminator_is_head_of_digest() {
    let d = marketplace::layout::account_discriminator("Item");
    let digest = anchor_lang::solana_program::hash::hash(b"account:Item").to_bytes();
    assert_eq!(d, digest[..8].to_vec());
    assert_ne!(d, b"account:".to_vec());
    assert_ne!(d, marketplace::layout::account_discriminator("Other"));
}

#[test]
fn record_bytes_follow_the_layout() {
    let mut m = funded(false);
    list_item(&mut m, ListItem { seller: alice(), now: -2 }, "pen".to_string(), "ink".to_string(), 0x0102).unwrap();
    let (at, bump) = m.derive(&alice(), "pen").unwrap();
    let bytes = m.item(&at).unwrap().to_bytes();
    let mut expected = marketplace::layout::account_discriminator("Item");
    expected.extend_from_slice(&[1u8; 32]);
    expected.extend_from_slice(&[0x02, 0x01, 0, 0, 0, 0, 0, 0]);
    expected.push(1);
    expected.extend_from_slice(&[3, 0, 0, 0]);
    expected.extend_from_slice(b"pen");
    expected.extend_from_slice(&[3, 0, 0, 0]);
    expected.extend_from_slice(b"ink");
    expected.push(bump);
    expected.extend_from_slice(&[0xfe, 0xff, 0xff, 0xff, 0xff, 0xff, 0xff, 0xff]);
    assert_eq!(bytes, expected);
    assert_eq!(bytes.len(), 8 + 32 + 8 + 1 + 4 + 3 + 4 + 3 + 1 + 8);
}

#[test]
fn full_record_fills_its_space() {
    let mut m = funded(false);
    list(&mut m, alice(), &"n".repeat(32), &"d".repeat(256), 1).unwrap();
    let at = address(&m, alice(), &"n".repeat(32));
    assert_eq!(m.item(&at).unwrap().to_bytes().len(), ITEM_SPACE);
}

fn stored_pen() -> (Vec<u8>, u8) {
    let mut m = funded(false);
    list_item(&mut m, ListItem { seller: alice(), now: -2 }, "pén".to_string(), "ink".to_string(), 700).unwrap();
    let (at, bump) = m.derive(&alice(), "pén").unwrap();
    (m.item(&at).unwrap().to_bytes(), bump)
}

#[test]
fn stored_record_reads_back() {
    let (bytes, bump) = stored_pen();
    let back = marketplace::Item::from_bytes(&bytes).unwrap();
    assert_eq!(back.seller, alice());
    assert_eq!(back.price, 700);
    assert!(back.list_item);
    assert_eq!(back.name, "pén");
    assert_eq!(back.description, "ink");
    assert_eq!(back.bump, bump);
    assert_eq!(back.listed_at, -2);
    let mut padded = bytes.clone();
    padded.extend_from_slice(&[0u8; 40]);
    assert_eq!(marketplace::Item::from_bytes(&padded), Some(back));
}

#[test]
fn malformed_record_bytes_read_as_nothing() {
    let (bytes, _) = stored_pen();
    let mut wrong_type = bytes.clone();
    wrong_type[0] ^= 1;
    assert_eq!(marketplace::Item::from_bytes(&wrong_type), None);
    assert_eq!(marketplace::Item::from_bytes(&bytes[..bytes.len() - 1]), None);
    let mut bad_flag = bytes.clone();
    bad_flag[48] = 2;
    assert_eq!(marketplace::Item::from_bytes(&bad_flag), None);
    let mut long_name = bytes.clone();
    long_name[49] = 33;
    long_name.extend_from_slice(&[0u8; 64]);
    assert_eq!(marketplace::Item::from_bytes(&long_name), None);
    let mut bad_text = bytes.clone();
    bad_text[53] = 0xff;
    assert_eq!(marketplace::Item::from_bytes(&bad_text), None);
    assert_eq!(marketplace::Item::from_bytes(&[]), None);
}

#[test]
fn marketplace_reports_its_configuration() {
    let m = Marketplace::new(program(), DEPOSIT, true);
    assert_eq!(m.program_id(), program());
    assert_eq!(m.deposit(), DEPOSIT);
    assert!(m.item(&alice()).is_none());
}
