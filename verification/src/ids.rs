//! Identifiers: UUIDs are carried as their 128-bit value and rendered by the `uuid` crate.
use vstd::prelude::*;

verus! {

/// The lowercase hexadecimal digit for `n < 16`.
pub open spec fn hex_digit(n: int) -> char {
    if n < 10 {
        (48 + n) as char
    } else {
        (87 + n) as char
    }
}

/// The `k`-th hexadecimal nibble of `id`, most significant first (`k < 32`).
pub open spec fn nibble(id: u128, k: int) -> int {
    (id as int / vstd::arithmetic::power::pow(16, (31 - k) as nat)) % 16
}

/// The hyphenated lowercase rendering `xxxxxxxx-xxxx-xxxx-xxxx-xxxxxxxxxxxx` of the UUID whose
/// big-endian value is `id`: 32 hex digits in groups of 8, 4, 4, 4 and 12.
pub open spec fn uuid_text(id: u128) -> Seq<char> {
    Seq::new(
        36,
        |i: int|
            if i == 8 || i == 13 || i == 18 || i == 23 {
                '-'
            } else {
                let dashes = if i < 8 {
                    0int
                } else if i < 13 {
                    1int
                } else if i < 18 {
                    2int
                } else if i < 23 {
                    3int
                } else {
                    4int
                };
                hex_digit(nibble(id, i - dashes))
            },
    )
}

/// `uuid::Uuid::from_u128(id).to_string()`: the hyphenated lowercase rendering of the UUID,
/// as the `uuid` crate documents its `Display` format.
#[verifier::external_body]
pub(crate) fn uuid_string(id: u128) -> (s: String)
    ensures
        s@ == uuid_text(id),
{
    uuid::Uuid::from_u128(id).to_string()
}

} // verus!
