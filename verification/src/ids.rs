//! Identifiers of users, servers and messages.
//!
//! An identifier is a UUID, held as the 128-bit number whose big-endian bytes
//! are the UUID's bytes. Numeric order is the order of the UUIDs.
use vstd::prelude::*;

verus! {

/// Identifies a user.
pub type UserId = u128;

/// Identifies a server (a channel with its members).
pub type ServerId = u128;

/// Identifies one message.
pub type MessageId = u128;

/// The identifier of a user that no server has registered yet.
pub const NIL: u128 = 0;

/// Byte `i` of the sixteen bytes of an identifier, the most significant first.
pub open spec fn id_byte(id: u128, i: int) -> u8 {
    ((id >> ((8 * (15 - i)) as u128)) & 0xff) as u8
}

/// The sixteen bytes of an identifier, the most significant first.
pub open spec fn id_bytes(id: u128) -> Seq<u8> {
    Seq::new(16, |i: int| id_byte(id, i))
}

/// The lower-case hexadecimal digit of value `d`.
pub open spec fn hex_char(d: u128) -> char {
    if d < 10 {
        (48 + d) as char
    } else {
        (87 + d) as char
    }
}

/// The `k`-th of the 32 hexadecimal digits of `id`, the most significant first.
pub open spec fn hex_digit(id: u128, k: int) -> char {
    hex_char((id >> ((4 * (31 - k)) as u128)) & 0xf)
}

/// `id` in the usual notation: 32 lower-case hexadecimal digits in groups of
/// 8, 4, 4, 4 and 12, with hyphens between the groups.
pub open spec fn id_text(id: u128) -> Seq<char> {
    Seq::new(
        36,
        |i: int|
            if i == 8 || i == 13 || i == 18 || i == 23 {
                '-'
            } else if i < 8 {
                hex_digit(id, i)
            } else if i < 13 {
                hex_digit(id, i - 1)
            } else if i < 18 {
                hex_digit(id, i - 2)
            } else if i < 23 {
                hex_digit(id, i - 3)
            } else {
                hex_digit(id, i - 4)
            },
    )
}

/// Calls `uuid::Uuid::into_bytes` on the UUID with the given numeric value
/// (`uuid::Uuid::from_u128`): its sixteen bytes in big-endian order.
#[verifier::external_body]
pub(crate) fn uuid_bytes(id: u128) -> (bytes: [u8; 16])
    ensures
        bytes@ == id_bytes(id),
{
    uuid::Uuid::from_u128(id).into_bytes()
}

/// Calls the `Display` form of `uuid::Uuid` on the UUID with the given numeric
/// value (`uuid::Uuid::from_u128`): the hyphenated lower-case notation.
#[verifier::external_body]
pub(crate) fn uuid_text(id: u128) -> (text: String)
    ensures
        text@ == id_text(id),
{
    uuid::Uuid::from_u128(id).to_string()
}

/// The first eight characters of an identifier's notation, used as a name for
/// users that are not in the member cache.
pub fn short_id(id: UserId) -> (text: String)
    ensures
        text@ == id_text(id).take(8),
{
    let text = uuid_text(id);
    text.as_str().substring_char(0, 8).to_string()
}

/// Different identifiers have different bytes.
pub proof fn law_id_bytes_identify(a: u128, b: u128)
    requires
        id_bytes(a) == id_bytes(b),
    ensures
        a == b,
{
    assert(id_bytes(a)[0] == id_byte(a, 0) && id_bytes(b)[0] == id_byte(b, 0));
    assert(id_bytes(a)[1] == id_byte(a, 1) && id_bytes(b)[1] == id_byte(b, 1));
    assert(id_bytes(a)[2] == id_byte(a, 2) && id_bytes(b)[2] == id_byte(b, 2));
    assert(id_bytes(a)[3] == id_byte(a, 3) && id_bytes(b)[3] == id_byte(b, 3));
    assert(id_bytes(a)[4] == id_byte(a, 4) && id_bytes(b)[4] == id_byte(b, 4));
    assert(id_bytes(a)[5] == id_byte(a, 5) && id_bytes(b)[5] == id_byte(b, 5));
    assert(id_bytes(a)[6] == id_byte(a, 6) && id_bytes(b)[6] == id_byte(b, 6));
    assert(id_bytes(a)[7] == id_byte(a, 7) && id_bytes(b)[7] == id_byte(b, 7));
    assert(id_bytes(a)[8] == id_byte(a, 8) && id_bytes(b)[8] == id_byte(b, 8));
    assert(id_bytes(a)[9] == id_byte(a, 9) && id_bytes(b)[9] == id_byte(b, 9));
    assert(id_bytes(a)[10] == id_byte(a, 10) && id_bytes(b)[10] == id_byte(b, 10));
    assert(id_bytes(a)[11] == id_byte(a, 11) && id_bytes(b)[11] == id_byte(b, 11));
    assert(id_bytes(a)[12] == id_byte(a, 12) && id_bytes(b)[12] == id_byte(b, 12));
    assert(id_bytes(a)[13] == id_byte(a, 13) && id_bytes(b)[13] == id_byte(b, 13));
    assert(id_bytes(a)[14] == id_byte(a, 14) && id_bytes(b)[14] == id_byte(b, 14));
    assert(id_bytes(a)[15] == id_byte(a, 15) && id_bytes(b)[15] == id_byte(b, 15));
    assert(a == b) by (bit_vector)
        requires
            ((a >> 120u128) & 0xff) as u8 == ((b >> 120u128) & 0xff) as u8,
            ((a >> 112u128) & 0xff) as u8 == ((b >> 112u128) & 0xff) as u8,
            ((a >> 104u128) & 0xff) as u8 == ((b >> 104u128) & 0xff) as u8,
            ((a >> 96u128) & 0xff) as u8 == ((b >> 96u128) & 0xff) as u8,
            ((a >> 88u128) & 0xff) as u8 == ((b >> 88u128) & 0xff) as u8,
            ((a >> 80u128) & 0xff) as u8 == ((b >> 80u128) & 0xff) as u8,
            ((a >> 72u128) & 0xff) as u8 == ((b >> 72u128) & 0xff) as u8,
            ((a >> 64u128) & 0xff) as u8 == ((b >> 64u128) & 0xff) as u8,
            ((a >> 56u128) & 0xff) as u8 == ((b >> 56u128) & 0xff) as u8,
            ((a >> 48u128) & 0xff) as u8 == ((b >> 48u128) & 0xff) as u8,
            ((a >> 40u128) & 0xff) as u8 == ((b >> 40u128) & 0xff) as u8,
            ((a >> 32u128) & 0xff) as u8 == ((b >> 32u128) & 0xff) as u8,
            ((a >> 24u128) & 0xff) as u8 == ((b >> 24u128) & 0xff) as u8,
            ((a >> 16u128) & 0xff) as u8 == ((b >> 16u128) & 0xff) as u8,
            ((a >> 8u128) & 0xff) as u8 == ((b >> 8u128) & 0xff) as u8,
            ((a >> 0u128) & 0xff) as u8 == ((b >> 0u128) & 0xff) as u8,
    ;
}

} // verus!
