//! Cache keys: one fixed key for the collection, and one per identifier made
//! of a fixed prefix and the identifier's canonical UUID text.

use vstd::prelude::*;
use vstd::string::*;
use crate::hex::{hex_digits, lemma_hex_digits_injective, lemma_pow16_32};

verus! {

/// The hyphenated lowercase text of the UUID whose 128-bit value is `id`
/// (`xxxxxxxx-xxxx-xxxx-xxxx-xxxxxxxxxxxx`, most significant digit first).
pub open spec fn uuid_text(id: u128) -> Seq<char> {
    let d = hex_digits(id as nat, 32);
    d.subrange(0, 8) + seq!['-'] + d.subrange(8, 12) + seq!['-'] + d.subrange(12, 16) + seq!['-']
        + d.subrange(16, 20) + seq!['-'] + d.subrange(20, 32)
}

pub open spec fn collection_key() -> Seq<char> {
    seq!['p', 'o', 's', 't', 's']
}

pub open spec fn item_key_of(id: u128) -> Seq<char> {
    seq!['p', 'o', 's', 't', ':'] + uuid_text(id)
}

/// Relies on `uuid::Uuid::from_u128` (the value read big-endian) and on
/// `Uuid`'s `Display`, which writes the hyphenated lowercase form.
#[verifier::external_body]
fn uuid_string(id: u128) -> (r: String)
    ensures
        r@ == uuid_text(id),
{
    uuid::Uuid::from_u128(id).to_string()
}

/// The key under which the whole collection is cached.
pub fn posts_key() -> (r: String)
    ensures
        r@ == collection_key(),
{
    proof {
        reveal_strlit("posts");
    }
    String::from_str("posts")
}

/// The key under which the record with identifier `id` is cached.
pub fn item_key(id: u128) -> (r: String)
    ensures
        r@ == item_key_of(id),
{
    proof {
        reveal_strlit("post:");
    }
    let prefix = String::from_str("post:");
    let text = uuid_string(id);
    let r = prefix.concat(text.as_str());
    assert(r@ =~= item_key_of(id));
    r
}

/// No item key is the collection key, and distinct identifiers have distinct
/// item keys.
pub proof fn lemma_keys_distinct(a: u128, b: u128)
    ensures
        item_key_of(a) != collection_key(),
        item_key_of(a) == item_key_of(b) ==> a == b,
{
    lemma_pow16_32();
    assert(item_key_of(a)[4] == ':');
    assert(collection_key()[4] == 's');
    if item_key_of(a) == item_key_of(b) {
        let ka = item_key_of(a);
        let da = hex_digits(a as nat, 32);
        let db = hex_digits(b as nat, 32);
        crate::hex::lemma_hex_digits(a as nat, 32);
        crate::hex::lemma_hex_digits(b as nat, 32);
        assert(da =~= ka.subrange(5, 13) + ka.subrange(14, 18) + ka.subrange(19, 23) + ka.subrange(
            24,
            28,
        ) + ka.subrange(29, 41));
        assert(db =~= ka.subrange(5, 13) + ka.subrange(14, 18) + ka.subrange(19, 23) + ka.subrange(
            24,
            28,
        ) + ka.subrange(29, 41));
        lemma_hex_digits_injective(a as nat, b as nat, 32);
    }
}

} // verus!
