use vstd::bytes::{
    lemma_auto_spec_u32_to_from_le_bytes, lemma_auto_spec_u64_to_from_le_bytes,
    spec_u32_from_le_bytes, spec_u32_to_le_bytes, spec_u64_from_le_bytes, spec_u64_to_le_bytes,
    u32_from_le_bytes, u32_to_le_bytes, u64_from_le_bytes, u64_to_le_bytes,
};
use vstd::prelude::*;
use vstd::utf8::{
    decode_utf8, decode_utf8_encode_utf8, encode_utf8, encode_utf8_decode_utf8,
    encode_utf8_valid_utf8, valid_utf8,
};

use crate::item::{Item, MAX_DESCRIPTION_LEN, MAX_NAME_LEN};
use crate::key::Key;
use crate::market::byte_len;

verus! {

/// The SHA-256 digest of a byte string.
pub uninterp spec fn sha256_of(data: Seq<u8>) -> Seq<u8>;

/// Relies on `solana_program::hash::hash`, as `anchor_lang` re-exports it:
/// the SHA-256 digest of the bytes, which depends on them alone.
#[verifier::external_body]
fn sha256(data: &[u8]) -> (r: [u8; 32])
    ensures
        r@ == sha256_of(data@),
{
    anchor_lang::solana_program::hash::hash(data).to_bytes()
}

/// The bytes that an account type's discriminator is hashed from:
/// `"account:"` and the type's name.
pub open spec fn discriminator_preimage(account_name: Seq<char>) -> Seq<u8> {
    seq![97u8, 99u8, 99u8, 111u8, 117u8, 110u8, 116u8, 58u8] + encode_utf8(account_name)
}

/// The eight bytes that open every stored account of a type.
pub open spec fn discriminator_spec(account_name: Seq<char>) -> Seq<u8> {
    sha256_of(discriminator_preimage(account_name)).subrange(0, 8)
}

/// The eight bytes that open every stored account of the type `account_name`:
/// the head of the digest of `"account:"` and the name.
pub fn account_discriminator(account_name: &str) -> (r: Vec<u8>)
    ensures
        r@.len() == 8,
        r@ == discriminator_spec(account_name@),
{
    let mut preimage: Vec<u8> = vec![97u8, 99u8, 99u8, 111u8, 117u8, 110u8, 116u8, 58u8];
    let mut text: Vec<u8> = vstd::slice::slice_to_vec(account_name.as_bytes());
    preimage.append(&mut text);
    let digest = sha256(preimage.as_slice());
    let mut r: Vec<u8> = Vec::new();
    let mut i: usize = 0;
    while i < 8
        invariant
            0 <= i <= 8,
            digest@ == sha256_of(discriminator_preimage(account_name@)),
            r@ == digest@.subrange(0, i as int),
        decreases 8 - i,
    {
        r.push(digest[i]);
        assert(r@ =~= digest@.subrange(0, i + 1));
        i = i + 1;
    }
    r
}

/// Relies on `String::from_utf8`: it accepts exactly the valid UTF-8 byte
/// strings, and yields the text they encode.
#[verifier::external_body]
fn utf8_text(bytes: Vec<u8>) -> (r: Option<String>)
    ensures
        match r {
            Some(s) => valid_utf8(bytes@) && s@ == decode_utf8(bytes@),
            None => !valid_utf8(bytes@),
        },
{
    String::from_utf8(bytes).ok()
}

/// A stored record: the discriminator, then seller, price, listed flag, name
/// and description each after a 4-byte length, bump and creation time, with
/// integers little-endian.
pub open spec fn item_layout(discriminator: Seq<u8>, item: Item) -> Seq<u8> {
    discriminator + item.seller@ + spec_u64_to_le_bytes(item.price) + seq![
        if item.list_item {
            1u8
        } else {
            0u8
        },
    ] + spec_u32_to_le_bytes(byte_len(item.name@) as u32) + encode_utf8(item.name@)
        + spec_u32_to_le_bytes(byte_len(item.description@) as u32) + encode_utf8(
        item.description@,
    ) + seq![item.bump] + spec_u64_to_le_bytes(item.listed_at as u64)
}

impl Item {
    /// The bytes under which the record is stored.
    pub fn to_bytes(&self) -> (r: Vec<u8>)
        requires
            byte_len(self.name@) <= MAX_NAME_LEN,
            byte_len(self.description@) <= MAX_DESCRIPTION_LEN,
        ensures
            r@ == item_layout(discriminator_spec("Item"@), *self),
    {
        let mut r = account_discriminator("Item");
        let mut seller: Vec<u8> = vstd::slice::slice_to_vec(self.seller.bytes.as_slice());
        r.append(&mut seller);
        let mut price = u64_to_le_bytes(self.price);
        r.append(&mut price);
        r.push(if self.list_item { 1u8 } else { 0u8 });
        let name = self.name.as_str().as_bytes();
        let mut name_len = u32_to_le_bytes(name.len() as u32);
        r.append(&mut name_len);
        let mut name_bytes: Vec<u8> = vstd::slice::slice_to_vec(name);
        r.append(&mut name_bytes);
        let description = self.description.as_str().as_bytes();
        let mut description_len = u32_to_le_bytes(description.len() as u32);
        r.append(&mut description_len);
        let mut description_bytes: Vec<u8> = vstd::slice::slice_to_vec(description);
        r.append(&mut description_bytes);
        r.push(self.bump);
        let mut listed_at = u64_to_le_bytes(self.listed_at as u64);
        r.append(&mut listed_at);
        proof {
            assert(r@ =~= item_layout(discriminator_spec("Item"@), *self));
        }
        r
    }
}

/// Whether `b` starts with `p`.
pub open spec fn is_prefix(p: Seq<u8>, b: Seq<u8>) -> bool {
    p.len() <= b.len() && b.subrange(0, p.len() as int) == p
}

/// Whether a record's name and description fit their caps.
pub open spec fn within_caps(item: Item) -> bool {
    byte_len(item.name@) <= MAX_NAME_LEN && byte_len(item.description@) <= MAX_DESCRIPTION_LEN
}

/// Where each field of a record stands in bytes that start with its layout.
proof fn lemma_layout_fields(discriminator: Seq<u8>, item: Item, b: Seq<u8>)
    requires
        discriminator.len() == 8,
        within_caps(item),
        is_prefix(item_layout(discriminator, item), b),
    ensures
        ({
            let n = byte_len(item.name@) as int;
            let d = byte_len(item.description@) as int;
            &&& b.len() >= 66 + n + d
            &&& item_layout(discriminator, item).len() == 66 + n + d
            &&& b.subrange(0, 8) == discriminator
            &&& b.subrange(8, 40) == item.seller@
            &&& b.subrange(40, 48) == spec_u64_to_le_bytes(item.price)
            &&& b[48] == (if item.list_item {
                1u8
            } else {
                0u8
            })
            &&& b.subrange(49, 53) == spec_u32_to_le_bytes(n as u32)
            &&& b.subrange(53, 53 + n) == encode_utf8(item.name@)
            &&& b.subrange(53 + n, 57 + n) == spec_u32_to_le_bytes(d as u32)
            &&& b.subrange(57 + n, 57 + n + d) == encode_utf8(item.description@)
            &&& b[57 + n + d] == item.bump
            &&& b.subrange(58 + n + d, 66 + n + d) == spec_u64_to_le_bytes(item.listed_at as u64)
        }),
{
    lemma_auto_spec_u32_to_from_le_bytes();
    lemma_auto_spec_u64_to_from_le_bytes();
    let n = byte_len(item.name@) as int;
    let d = byte_len(item.description@) as int;
    let l = item_layout(discriminator, item);
    assert(item.seller@.len() == 32);
    assert(l.len() == 66 + n + d);
    assert(b.subrange(0, 8) =~= l.subrange(0, 8));
    assert(b.subrange(8, 40) =~= l.subrange(8, 40));
    assert(b.subrange(40, 48) =~= l.subrange(40, 48));
    assert(b[48] == l[48]);
    assert(b.subrange(49, 53) =~= l.subrange(49, 53));
    assert(b.subrange(53, 53 + n) =~= l.subrange(53, 53 + n));
    assert(b.subrange(53 + n, 57 + n) =~= l.subrange(53 + n, 57 + n));
    assert(b.subrange(57 + n, 57 + n + d) =~= l.subrange(57 + n, 57 + n + d));
    assert(b[57 + n + d] == l[57 + n + d]);
    assert(b.subrange(58 + n + d, 66 + n + d) =~= l.subrange(58 + n + d, 66 + n + d));
    assert(l.subrange(0, 8) =~= discriminator);
    assert(l.subrange(8, 40) =~= item.seller@);
    assert(l.subrange(40, 48) =~= spec_u64_to_le_bytes(item.price));
    assert(l.subrange(49, 53) =~= spec_u32_to_le_bytes(n as u32));
    assert(l.subrange(53, 53 + n) =~= encode_utf8(item.name@));
    assert(l.subrange(53 + n, 57 + n) =~= spec_u32_to_le_bytes(d as u32));
    assert(l.subrange(57 + n, 57 + n + d) =~= encode_utf8(item.description@));
    assert(l.subrange(58 + n + d, 66 + n + d) =~= spec_u64_to_le_bytes(item.listed_at as u64));
}

/// Bytes whose fields are those of a record start with its layout.
proof fn lemma_layout_from_fields(discriminator: Seq<u8>, item: Item, b: Seq<u8>)
    requires
        ({
            let n = byte_len(item.name@) as int;
            let d = byte_len(item.description@) as int;
            &&& n <= MAX_NAME_LEN
            &&& d <= MAX_DESCRIPTION_LEN
            &&& b.len() >= 66 + n + d
            &&& b.subrange(0, 8) == discriminator
            &&& b.subrange(8, 40) == item.seller@
            &&& b.subrange(40, 48) == spec_u64_to_le_bytes(item.price)
            &&& b[48] == (if item.list_item {
                1u8
            } else {
                0u8
            })
            &&& b.subrange(49, 53) == spec_u32_to_le_bytes(n as u32)
            &&& b.subrange(53, 53 + n) == encode_utf8(item.name@)
            &&& b.subrange(53 + n, 57 + n) == spec_u32_to_le_bytes(d as u32)
            &&& b.subrange(57 + n, 57 + n + d) == encode_utf8(item.description@)
            &&& b[57 + n + d] == item.bump
            &&& b.subrange(58 + n + d, 66 + n + d) == spec_u64_to_le_bytes(item.listed_at as u64)
        }),
    ensures
        is_prefix(item_layout(discriminator, item), b),
{
    lemma_auto_spec_u32_to_from_le_bytes();
    lemma_auto_spec_u64_to_from_le_bytes();
    let n = byte_len(item.name@) as int;
    let d = byte_len(item.description@) as int;
    assert(item.seller@.len() == 32);
    assert(item_layout(discriminator, item) =~= b.subrange(0, 66 + n + d));
}

/// Two records within their caps whose layouts begin the same bytes hold
/// the same values.
pub proof fn layout_determines_record(discriminator: Seq<u8>, a: Item, b: Item, bytes: Seq<u8>)
    requires
        discriminator.len() == 8,
        within_caps(a),
        within_caps(b),
        is_prefix(item_layout(discriminator, a), bytes),
        is_prefix(item_layout(discriminator, b), bytes),
    ensures
        same_record(a, b),
{
    lemma_auto_spec_u32_to_from_le_bytes();
    lemma_auto_spec_u64_to_from_le_bytes();
    lemma_layout_fields(discriminator, a, bytes);
    lemma_layout_fields(discriminator, b, bytes);
    assert(a.seller.bytes =~= b.seller.bytes);
    let na = byte_len(a.name@) as int;
    let nb = byte_len(b.name@) as int;
    assert(spec_u32_from_le_bytes(spec_u32_to_le_bytes(na as u32)) == spec_u32_from_le_bytes(
        spec_u32_to_le_bytes(nb as u32),
    ));
    assert(na == nb);
    encode_utf8_decode_utf8(a.name@);
    encode_utf8_decode_utf8(b.name@);
    let da = byte_len(a.description@) as int;
    let db = byte_len(b.description@) as int;
    assert(spec_u32_from_le_bytes(spec_u32_to_le_bytes(da as u32)) == spec_u32_from_le_bytes(
        spec_u32_to_le_bytes(db as u32),
    ));
    assert(da == db);
    encode_utf8_decode_utf8(a.description@);
    encode_utf8_decode_utf8(b.description@);
    assert(spec_u64_from_le_bytes(spec_u64_to_le_bytes(a.price)) == spec_u64_from_le_bytes(
        spec_u64_to_le_bytes(b.price),
    ));
    let (ta, tb) = (a.listed_at, b.listed_at);
    assert(spec_u64_from_le_bytes(spec_u64_to_le_bytes(ta as u64)) == spec_u64_from_le_bytes(
        spec_u64_to_le_bytes(tb as u64),
    ));
    assert(ta as u64 == tb as u64 ==> ta == tb) by (bit_vector);
}

/// The `n` bytes of `b` from `start` on.
fn bytes_at(b: &[u8], start: usize, n: usize) -> (r: Vec<u8>)
    requires
        start + n <= b@.len(),
    ensures
        r@ == b@.subrange(start as int, start + n),
{
    let total = b.len();
    let mut r: Vec<u8> = Vec::new();
    let mut i: usize = 0;
    while i < n
        invariant
            0 <= i <= n,
            start + n <= b@.len(),
            total == b@.len(),
            r@ == b@.subrange(start as int, start + i),
        decreases n - i,
    {
        r.push(b[start + i]);
        assert(r@ =~= b@.subrange(start as int, start + i + 1));
        i = i + 1;
    }
    r
}

fn same_bytes(a: &Vec<u8>, b: &Vec<u8>) -> (r: bool)
    ensures
        r == (a@ == b@),
{
    if a.len() != b.len() {
        return false;
    }
    let mut i: usize = 0;
    while i < a.len()
        invariant
            0 <= i <= a@.len(),
            a@.len() == b@.len(),
            forall|j: int| 0 <= j < i ==> a@[j] == b@[j],
        decreases a@.len() - i,
    {
        if a[i] != b[i] {
            return false;
        }
        i = i + 1;
    }
    assert(a@ =~= b@);
    true
}

/// Whether two records hold the same values.
pub open spec fn same_record(a: Item, b: Item) -> bool {
    &&& a.seller@ == b.seller@
    &&& a.price == b.price
    &&& a.list_item == b.list_item
    &&& a.name@ == b.name@
    &&& a.description@ == b.description@
    &&& a.bump == b.bump
    &&& a.listed_at == b.listed_at
}

/// What reading a record back from `b` may give: a record within its caps
/// whose layout begins `b`, or nothing where no such record exists.
pub open spec fn reads_as(b: Seq<u8>, r: Option<Item>) -> bool {
    match r {
        Some(item) => within_caps(item) && is_prefix(
            item_layout(discriminator_spec("Item"@), item),
            b,
        ),
        None => holds_no_record(b),
    }
}

/// Whether `b` starts with the layout of no record within its caps.
pub open spec fn holds_no_record(b: Seq<u8>) -> bool {
    forall|item: Item|
        within_caps(item) ==> !is_prefix(#[trigger] item_layout(discriminator_spec("Item"@), item), b)
}

impl Item {
    /// Reads back the record that `b` starts with; bytes after it are
    /// ignored.
    pub fn from_bytes(b: &[u8]) -> (r: Option<Item>)
        ensures
            reads_as(b@, r),
    {
        let discriminator = account_discriminator("Item");
        let ghost dv = discriminator@;
        proof {
            lemma_auto_spec_u32_to_from_le_bytes();
            lemma_auto_spec_u64_to_from_le_bytes();
        }
        let total = b.len();
        if total < 66 {
            proof {
                assert forall|item: Item| within_caps(item) implies !is_prefix(
                    #[trigger] item_layout(dv, item),
                    b@,
                ) by {
                    if is_prefix(item_layout(dv, item), b@) {
                        lemma_layout_fields(dv, item, b@);
                    }
                }
            }
            return None;
        }
        let head = bytes_at(b, 0, 8);
        if !same_bytes(&head, &discriminator) {
            proof {
                assert forall|item: Item| within_caps(item) implies !is_prefix(
                    #[trigger] item_layout(dv, item),
                    b@,
                ) by {
                    if is_prefix(item_layout(dv, item), b@) {
                        lemma_layout_fields(dv, item, b@);
                    }
                }
            }
            return None;
        }
        let seller_bytes = bytes_at(b, 8, 32);
        let mut seller = [0u8; 32];
        let mut i: usize = 0;
        while i < 32
            invariant
                0 <= i <= 32,
                seller_bytes@.len() == 32,
                forall|j: int| 0 <= j < i ==> seller@[j] == seller_bytes@[j],
            decreases 32 - i,
        {
            seller[i] = seller_bytes[i];
            i = i + 1;
        }
        assert(seller@ =~= seller_bytes@);
        let price_bytes = bytes_at(b, 40, 8);
        let price = u64_from_le_bytes(price_bytes.as_slice());
        let flag = b[48];
        if flag > 1 {
            proof {
                assert forall|item: Item| within_caps(item) implies !is_prefix(
                    #[trigger] item_layout(dv, item),
                    b@,
                ) by {
                    if is_prefix(item_layout(dv, item), b@) {
                        lemma_layout_fields(dv, item, b@);
                    }
                }
            }
            return None;
        }
        let name_len_bytes = bytes_at(b, 49, 4);
        let name_len = u32_from_le_bytes(name_len_bytes.as_slice());
        if name_len > 32 || total < 66 + name_len as usize {
            proof {
                assert forall|item: Item| within_caps(item) implies !is_prefix(
                    #[trigger] item_layout(dv, item),
                    b@,
                ) by {
                    if is_prefix(item_layout(dv, item), b@) {
                        lemma_layout_fields(dv, item, b@);
                    }
                }
            }
            return None;
        }
        let n = name_len as usize;
        let name_bytes = bytes_at(b, 53, n);
        let ghost name_v = name_bytes@;
        let name = match utf8_text(name_bytes) {
            Some(text) => text,
            None => {
                proof {
                    assert forall|item: Item| within_caps(item) implies !is_prefix(
                        #[trigger] item_layout(dv, item),
                        b@,
                    ) by {
                        if is_prefix(item_layout(dv, item), b@) {
                            lemma_layout_fields(dv, item, b@);
                            encode_utf8_valid_utf8(item.name@);
                        }
                    }
                }
                return None;
            },
        };
        let description_len_bytes = bytes_at(b, 53 + n, 4);
        let description_len = u32_from_le_bytes(description_len_bytes.as_slice());
        if description_len > 256 || total < 66 + n + description_len as usize {
            proof {
                assert forall|item: Item| within_caps(item) implies !is_prefix(
                    #[trigger] item_layout(dv, item),
                    b@,
                ) by {
                    if is_prefix(item_layout(dv, item), b@) {
                        lemma_layout_fields(dv, item, b@);
                    }
                }
            }
            return None;
        }
        let d = description_len as usize;
        let description_bytes = bytes_at(b, 57 + n, d);
        let ghost description_v = description_bytes@;
        let description = match utf8_text(description_bytes) {
            Some(text) => text,
            None => {
                proof {
                    assert forall|item: Item| within_caps(item) implies !is_prefix(
                        #[trigger] item_layout(dv, item),
                        b@,
                    ) by {
                        if is_prefix(item_layout(dv, item), b@) {
                            lemma_layout_fields(dv, item, b@);
                            encode_utf8_valid_utf8(item.description@);
                        }
                    }
                }
                return None;
            },
        };
        let bump = b[57 + n + d];
        let listed_at_bytes = bytes_at(b, 58 + n + d, 8);
        let listed_at = #[verifier::truncate] (u64_from_le_bytes(listed_at_bytes.as_slice()) as i64);
        let item = Item {
            seller: Key { bytes: seller },
            price,
            list_item: flag == 1,
            name,
            description,
            bump,
            listed_at,
        };
        proof {
            decode_utf8_encode_utf8(name_v);
            decode_utf8_encode_utf8(description_v);
            assert(encode_utf8(item.name@) == name_v);
            assert(encode_utf8(item.description@) == description_v);
            let u = spec_u64_from_le_bytes(listed_at_bytes@);
            assert((u as i64) as u64 == u) by (bit_vector);
            lemma_layout_from_fields(dv, item, b@);
        }
        Some(item)
    }
}

} // verus!
