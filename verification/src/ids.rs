//! Media identifiers: 128-bit UUID values.

use vstd::prelude::*;
use vstd::utf8::encode_utf8;
use vstd::string::*;

verus! {

/// The nil UUID, which stands for "no collection".
pub const NIL: u128 = 0;

/// The ISO OID namespace for name-based UUIDs.
pub const NAMESPACE_OID: u128 = 0x6ba7b812_9dad_11d1_80b4_00c04fd430c8;

/// The version field of a UUID.
pub open spec fn uuid_version(id: u128) -> u128 {
    (id >> 76) & 0xf
}

/// The sixteen octets of a UUID, most significant first.
pub open spec fn octets(id: u128) -> Seq<u8> {
    Seq::new(16, |i: int| ((id >> ((8 * (15 - i)) as u128)) & 0xff) as u8)
}

/// The lower-case hexadecimal digit of `d`.
pub open spec fn hex_digit(d: int) -> char {
    if d < 10 {
        ((48 + d) as u32) as char
    } else {
        ((87 + d) as u32) as char
    }
}

/// How many hyphens stand before position `i` of the hyphenated form.
pub open spec fn hyphens_before(i: int) -> int {
    if i <= 8 {
        0
    } else if i <= 13 {
        1
    } else if i <= 18 {
        2
    } else if i <= 23 {
        3
    } else {
        4
    }
}

/// The hyphenated form of a UUID: 32 lower-case hexadecimal digits in groups of 8, 4, 4, 4, 12.
pub open spec fn hyphenated(id: u128) -> Seq<char> {
    Seq::new(
        36,
        |i: int|
            if i == 8 || i == 13 || i == 18 || i == 23 {
                '-'
            } else {
                hex_digit(((id >> ((4 * (31 - (i - hyphens_before(i)))) as u128)) & 0xf) as int)
            },
    )
}

/// The UUID that `uuid::Uuid::parse_str` reads from a text, if it reads one.
pub uninterp spec fn uuid_of_text(s: Seq<char>) -> Option<u128>;

/// The name-based UUID that `uuid::Uuid::new_v5` derives.
pub uninterp spec fn uuid_v5(namespace: u128, name: Seq<u8>) -> u128;

/// Calls `uuid::Uuid::parse_str`. Whether it succeeds and the value it reads depend on the text
/// alone.
#[verifier::external_body]
pub(crate) fn parse_uuid(s: &str) -> (r: Option<u128>)
    ensures
        r == uuid_of_text(s@),
{
    uuid::Uuid::parse_str(s).ok().map(|u| u.as_u128())
}

/// Calls `uuid::Uuid::new_v5`, the SHA-1 name-based UUID. Its value depends on the namespace and
/// the name alone, and its version field is 5.
#[verifier::external_body]
pub(crate) fn new_v5(namespace: u128, name: &[u8]) -> (r: u128)
    ensures
        r == uuid_v5(namespace, name@),
        uuid_version(r) == 5,
{
    uuid::Uuid::new_v5(&uuid::Uuid::from_u128(namespace), name).as_u128()
}

/// Calls `uuid::Uuid::new_v4`, a random UUID: only its version field, 4, is known.
#[verifier::external_body]
pub(crate) fn new_v4() -> (r: u128)
    ensures
        uuid_version(r) == 4,
{
    uuid::Uuid::new_v4().as_u128()
}

/// Calls `uuid::Uuid::as_bytes`: the sixteen octets, most significant first.
#[verifier::external_body]
pub(crate) fn id_bytes(id: u128) -> (r: Vec<u8>)
    ensures
        r@ == octets(id),
{
    uuid::Uuid::from_u128(id).as_bytes().to_vec()
}

/// Calls `to_string` of `uuid::Uuid`, which writes the hyphenated form in lower case.
#[verifier::external_body]
pub(crate) fn id_text(id: u128) -> (r: String)
    ensures
        r@ == hyphenated(id),
{
    uuid::Uuid::from_u128(id).to_string()
}

/// A UUID with version 5 is not the nil UUID.
pub proof fn law_versioned_is_not_nil(id: u128)
    requires
        uuid_version(id) == 5,
    ensures
        id != NIL,
{
    assert((0u128 >> 76) & 0xf == 0) by (bit_vector);
}

/// The `k`-th hexadecimal digit of a UUID, counted from the least significant.
spec fn nibble(id: u128, k: int) -> u128 {
    (id >> ((4 * k) as u128)) & 0xf
}

/// Where `a` and `b` agree in their digits from the `k`-th on, they agree there as numbers.
proof fn lemma_same_digits(a: u128, b: u128, k: int)
    requires
        0 <= k < 32,
        forall|j: int| k <= j < 32 ==> #[trigger] nibble(a, j) == nibble(b, j),
    ensures
        a >> ((4 * k) as u128) == b >> ((4 * k) as u128),
    decreases 32 - k,
{
    let s = (4 * k) as u128;
    assert(nibble(a, k) == nibble(b, k));
    if k < 31 {
        lemma_same_digits(a, b, k + 1);
        let t = (4 * (k + 1)) as u128;
        assert(a >> s == b >> s) by (bit_vector)
            requires
                s <= 120,
                t == s + 4,
                (a >> s) & 0xf == (b >> s) & 0xf,
                a >> t == b >> t,
        ;
    } else {
        assert(a >> s == b >> s) by (bit_vector)
            requires
                s == 124,
                (a >> s) & 0xf == (b >> s) & 0xf,
        ;
    }
}

/// Different UUIDs have different hyphenated forms.
pub proof fn law_hyphenated_tells_ids_apart(a: u128, b: u128)
    requires
        hyphenated(a) == hyphenated(b),
    ensures
        a == b,
{
    assert forall|j: int| 0 <= j < 32 implies #[trigger] nibble(a, j) == nibble(b, j) by {
        let digit = 31 - j;
        let at = if digit < 8 {
            digit
        } else if digit < 12 {
            digit + 1
        } else if digit < 16 {
            digit + 2
        } else if digit < 20 {
            digit + 3
        } else {
            digit + 4
        };
        assert(at - hyphens_before(at) == digit);
        assert(hyphenated(a)[at] == hex_digit(nibble(a, j) as int));
        assert(hyphenated(b)[at] == hex_digit(nibble(b, j) as int));
        let x = a >> ((4 * j) as u128);
        let y = b >> ((4 * j) as u128);
        assert(x & 0xf <= 15 && y & 0xf <= 15) by (bit_vector);
    }
    lemma_same_digits(a, b, 0);
    assert(a >> 0u128 == a && b >> 0u128 == b) by (bit_vector);
}

// ---------------------------------------------------------------------------------------------
// Identities that the server derives

/// The collection that holds the members of catalog `local_id` of addon `addon_id`.
pub open spec fn collection_of(addon_id: u128, local_id: Seq<char>) -> u128 {
    uuid_v5(addon_id, encode_utf8(local_id))
}

/// The row that ties `item_id` to the collection.
pub open spec fn relation_of(collection_id: u128, item_id: u128) -> u128 {
    uuid_v5(collection_id, octets(item_id))
}

} // verus!
