//! Addresses: the 32-byte identifiers of accounts and objects, and their
//! hexadecimal text.

use sui_sdk_types::Address;
use vstd::prelude::*;

use crate::text::{byte_hex, hex_digit};

verus! {

/// The bytes of an account or object identifier.
pub type RawId = [u8; 32];

/// The value of a hexadecimal digit, in either case.
pub open spec fn hex_value(c: char) -> Option<nat> {
    if '0' <= c <= '9' {
        Some((c as int - '0' as int) as nat)
    } else if 'a' <= c <= 'f' {
        Some((c as int - 'a' as int + 10) as nat)
    } else if 'A' <= c <= 'F' {
        Some((c as int - 'A' as int + 10) as nat)
    } else {
        None
    }
}

/// The digits of an address text: the text without its `0x`, where it has one.
pub open spec fn address_digits(s: Seq<char>) -> Seq<char> {
    if s.len() >= 2 && s[0] == '0' && s[1] == 'x' {
        s.skip(2)
    } else {
        s
    }
}

/// Whether `s` is an address: 1 to 64 hexadecimal digits, after an optional `0x`.
pub open spec fn is_address_text(s: Seq<char>) -> bool {
    let digits = address_digits(s);
    &&& 1 <= digits.len() <= 64
    &&& forall|i: int| 0 <= i < digits.len() ==> hex_value(#[trigger] digits[i]) is Some
}

/// The value of digit `k` of 64, where missing leading digits are zeros.
pub open spec fn address_nibble(digits: Seq<char>, k: int) -> nat {
    let missing = 64 - digits.len();
    if k < missing {
        0
    } else {
        hex_value(digits[k - missing])->0
    }
}

/// The bytes that the address text `s` stands for, if it is one.
pub open spec fn parsed_address(s: Seq<char>) -> Option<Seq<u8>> {
    if is_address_text(s) {
        let digits = address_digits(s);
        Some(
            Seq::new(
                32,
                |i: int|
                    (16 * address_nibble(digits, 2 * i) + address_nibble(digits, 2 * i + 1)) as u8,
            ),
        )
    } else {
        None
    }
}

/// The text of an address: `0x`, then two lower-case digits for each byte.
pub open spec fn address_chars(id: Seq<u8>) -> Seq<char> {
    Seq::new(
        2 + 2 * id.len(),
        |i: int|
            if i == 0 {
                '0'
            } else if i == 1 {
                'x'
            } else if i % 2 == 0 {
                hex_digit((id[(i - 2) / 2] / 16) as nat)
            } else {
                hex_digit((id[(i - 2) / 2] % 16) as nat)
            },
    )
}

/// Parses an address.
///
/// Trusted: `<sui_sdk_types::Address as FromStr>::from_str` accepts 1 to 64
/// hexadecimal digits after an optional `0x`, and fills missing leading digits
/// with zeros.
#[verifier::external_body]
pub(crate) fn parse_address(s: &str) -> (r: Option<RawId>)
    ensures
        match r {
            Some(id) => parsed_address(s@) == Some(id@),
            None => parsed_address(s@) is None,
        },
{
    s.parse::<Address>().ok().map(|a| a.into_inner())
}

/// The text of an address.
///
/// Trusted: `Display` of `sui_sdk_types::Address` writes `0x` and then each byte
/// as two lower-case hexadecimal digits.
#[verifier::external_body]
pub(crate) fn display_address(id: &RawId) -> (r: String)
    ensures
        r@ == address_chars(id@),
{
    Address::new(*id).to_string()
}

/// The text of an address: `0x`, then 64 lower-case hexadecimal digits.
pub fn address_text(id: &RawId) -> (r: String)
    ensures
        r@ == address_chars(id@),
{
    display_address(id)
}

/// The address that `s` stands for, if it is one.
pub fn address_from_text(s: &str) -> (r: Option<RawId>)
    ensures
        match r {
            Some(id) => parsed_address(s@) == Some(id@),
            None => parsed_address(s@) is None,
        },
{
    parse_address(s)
}

/// Whether two identifiers are the same.
pub fn same_id(a: &RawId, b: &RawId) -> (r: bool)
    ensures
        r == (a@ == b@),
{
    let mut i: usize = 0;
    while i < 32
        invariant
            i <= 32,
            forall|j: int| 0 <= j < i ==> a@[j] == b@[j],
        decreases 32 - i,
    {
        if a[i] != b[i] {
            return false;
        }
        i += 1;
    }
    proof {
        assert(a@ =~= b@);
    }
    true
}

proof fn lemma_hex_digit_value(d: nat)
    requires
        d < 16,
    ensures
        hex_value(hex_digit(d)) == Some(d),
{
}

/// The text of an address parses back to the address.
pub proof fn address_text_round_trip(id: Seq<u8>)
    requires
        id.len() == 32,
    ensures
        parsed_address(address_chars(id)) == Some(id),
{
    let s = address_chars(id);
    let digits = address_digits(s);
    assert(digits.len() == 64);
    assert forall|i: int| 0 <= i < 64 implies hex_value(#[trigger] digits[i]) == Some(
        if i % 2 == 0 {
            (id[i / 2] / 16) as nat
        } else {
            (id[i / 2] % 16) as nat
        },
    ) by {
        assert(digits[i] == s[i + 2]);
        lemma_hex_digit_value((id[i / 2] / 16) as nat);
        lemma_hex_digit_value((id[i / 2] % 16) as nat);
    }
    assert forall|i: int| 0 <= i < 32 implies #[trigger] parsed_address(s)->0[i] == id[i] by {
        assert(hex_value(digits[2 * i]) == Some((id[i] / 16) as nat));
        assert(hex_value(digits[2 * i + 1]) == Some((id[i] % 16) as nat));
    }
    assert(parsed_address(s)->0 =~= id);
}

/// A byte in hexadecimal is two digits that write it, in lower case.
pub proof fn hex_bytes_write_their_byte(b: u8)
    ensures
        byte_hex(b).len() == 2,
        ({
            let (high, low) = (byte_hex(b)[0], byte_hex(b)[1]);
            &&& hex_value(high) is Some && hex_value(low) is Some
            &&& 16 * hex_value(high)->0 + hex_value(low)->0 == b
            &&& !('A' <= high <= 'F') && !('A' <= low <= 'F')
        }),
{
    lemma_hex_digit_value((b / 16) as nat);
    lemma_hex_digit_value((b % 16) as nat);
}

}
