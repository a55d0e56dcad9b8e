use vstd::prelude::*;
use vstd::utf8::encode_utf8;

verus! {

/// Largest title, in bytes of UTF-8.
pub const TITLE_MAX_LEN: usize = 20;

/// Largest message, in bytes of UTF-8.
pub const MESSAGE_MAX_LEN: usize = 200;

/// Fixed part of a record's storage: an 8-byte account tag, the 32-byte
/// owner, a 4-byte length prefix for each string and the 8-byte reserved
/// `entry_id`.
pub const HEADER_SPACE: usize = 56;

/// Largest data length that the rent schedule is asked about.
pub const MAX_ACCOUNT_SPACE: usize = 10_485_760;

/// Length of a string in bytes of UTF-8.
pub open spec fn byte_len(s: Seq<char>) -> nat {
    encode_utf8(s).len()
}

/// Whether a title and a message are within their bounds.
pub open spec fn fits(title: Seq<char>, message: Seq<char>) -> bool {
    byte_len(title) <= TITLE_MAX_LEN && byte_len(message) <= MESSAGE_MAX_LEN
}

/// Bytes of storage that a record with this title and message occupies.
pub open spec fn space_of(title: Seq<char>, message: Seq<char>) -> nat {
    HEADER_SPACE as nat + byte_len(title) + byte_len(message)
}

/// Lamports that keep an account of `space` data bytes rent-exempt under the
/// default rent: 128 bytes of overhead, 3480 lamports per byte-year, two years.
pub open spec fn rent_exempt_minimum(space: nat) -> nat {
    (128 + space) * 6960
}

/// Byte length of a string.
pub fn text_len(s: &String) -> (r: usize)
    ensures
        r == byte_len(s@),
{
    s.as_str().as_bytes().len()
}

/// Storage needed by a record with this title and message.
pub fn required_space(title: &String, message: &String) -> (r: usize)
    requires
        fits(title@, message@),
    ensures
        r == space_of(title@, message@),
        r <= HEADER_SPACE + TITLE_MAX_LEN + MESSAGE_MAX_LEN,
{
    HEADER_SPACE + text_len(title) + text_len(message)
}

/// Relies on `Rent::minimum_balance` of anchor_lang (solana-rent) with the
/// default rent: `((128 + len) * 3480) as f64 * 2.0`, exact below 2^53.
#[verifier::external_body]
fn minimum_balance(space: usize) -> (r: u64)
    requires
        space <= MAX_ACCOUNT_SPACE,
    ensures
        r == rent_exempt_minimum(space as nat),
{
    anchor_lang::prelude::Rent::default().minimum_balance(space)
}

/// Lamports that an account of `space` bytes must hold.
pub fn rent_for(space: usize) -> (r: u64)
    requires
        space <= MAX_ACCOUNT_SPACE,
    ensures
        r == rent_exempt_minimum(space as nat),
{
    minimum_balance(space)
}

} // verus!
