//! Base64, in the standard alphabet and with padding.

use base64::{engine::general_purpose::STANDARD, Engine};
use vstd::prelude::*;

verus! {

/// The base64 digit of `v`.
pub open spec fn base64_digit(v: int) -> char {
    if v < 26 {
        (v + 'A' as int) as char
    } else if v < 52 {
        (v - 26 + 'a' as int) as char
    } else if v < 62 {
        (v - 52 + '0' as int) as char
    } else if v == 62 {
        '+'
    } else {
        '/'
    }
}

/// The four characters of one, two or three bytes.
pub open spec fn base64_group(b: Seq<u8>) -> Seq<char> {
    let b0 = b[0] as int;
    let b1 = if b.len() > 1 {
        b[1] as int
    } else {
        0
    };
    let b2 = if b.len() > 2 {
        b[2] as int
    } else {
        0
    };
    seq![
        base64_digit(b0 / 4),
        base64_digit(b0 % 4 * 16 + b1 / 16),
        if b.len() > 1 {
            base64_digit(b1 % 16 * 4 + b2 / 64)
        } else {
            '='
        },
        if b.len() > 2 {
            base64_digit(b2 % 64)
        } else {
            '='
        },
    ]
}

/// The base64 text of `b`.
pub open spec fn base64_text(b: Seq<u8>) -> Seq<char>
    decreases b.len(),
{
    if b.len() == 0 {
        seq![]
    } else if b.len() <= 3 {
        base64_group(b)
    } else {
        base64_group(b.take(3)) + base64_text(b.skip(3))
    }
}

/// The bytes that `text` is the base64 text of, if it is one.
pub open spec fn base64_bytes(text: Seq<char>) -> Option<Seq<u8>> {
    if exists|b: Seq<u8>| #[trigger] base64_text(b) == text {
        Some(choose|b: Seq<u8>| #[trigger] base64_text(b) == text)
    } else {
        None
    }
}

proof fn base64_digit_unique(v: int, w: int)
    requires
        0 <= v < 64,
        0 <= w < 64,
        base64_digit(v) == base64_digit(w),
    ensures
        v == w,
{
}

proof fn base64_digit_not_padding(v: int)
    requires
        0 <= v < 64,
    ensures
        base64_digit(v) != '=',
{
}

/// Four characters tell the bytes that they stand for.
proof fn base64_group_unique(a: Seq<u8>, b: Seq<u8>)
    requires
        1 <= a.len() <= 3,
        1 <= b.len() <= 3,
        base64_group(a) == base64_group(b),
    ensures
        a == b,
{
    let x = base64_group(a);
    let y = base64_group(b);
    let a1 = if a.len() > 1 {
        a[1] as int
    } else {
        0
    };
    let b1 = if b.len() > 1 {
        b[1] as int
    } else {
        0
    };
    let a2 = if a.len() > 2 {
        a[2] as int
    } else {
        0
    };
    let b2 = if b.len() > 2 {
        b[2] as int
    } else {
        0
    };
    assert(x[0] == y[0] && x[1] == y[1] && x[2] == y[2] && x[3] == y[3]);
    base64_digit_unique(a[0] as int / 4, b[0] as int / 4);
    base64_digit_unique(a[0] as int % 4 * 16 + a1 / 16, b[0] as int % 4 * 16 + b1 / 16);
    assert(a[0] == b[0]);
    base64_digit_not_padding(a1 % 16 * 4 + a2 / 64);
    base64_digit_not_padding(b1 % 16 * 4 + b2 / 64);
    base64_digit_not_padding(a2 % 64);
    base64_digit_not_padding(b2 % 64);
    assert(a.len() == b.len());
    if a.len() > 1 {
        base64_digit_unique(a1 % 16 * 4 + a2 / 64, b1 % 16 * 4 + b2 / 64);
        assert(a1 == b1);
    }
    if a.len() > 2 {
        base64_digit_unique(a2 % 64, b2 % 64);
        assert(a2 == b2);
    }
    assert(a =~= b);
}

/// No two byte sequences share their base64 text.
pub proof fn base64_text_unique(a: Seq<u8>, b: Seq<u8>)
    requires
        base64_text(a) == base64_text(b),
    ensures
        a == b,
    decreases a.len(),
{
    base64_text_len(a);
    base64_text_len(b);
    if a.len() == 0 {
        assert(a =~= b);
    } else {
        let ha = if a.len() <= 3 {
            a
        } else {
            a.take(3)
        };
        let hb = if b.len() <= 3 {
            b
        } else {
            b.take(3)
        };
        assert(base64_text(a).take(4) =~= base64_group(ha));
        assert(base64_text(b).take(4) =~= base64_group(hb));
        base64_group_unique(ha, hb);
        if a.len() > 3 {
            assert(base64_text(a).skip(4) =~= base64_text(a.skip(3)));
            assert(base64_text(b).skip(4) =~= base64_text(b.skip(3)));
            base64_text_unique(a.skip(3), b.skip(3));
            assert(a =~= a.take(3) + a.skip(3));
            assert(b =~= b.take(3) + b.skip(3));
        }
    }
}

/// A base64 text has four characters for every three bytes that were begun.
proof fn base64_text_len(b: Seq<u8>)
    ensures
        base64_text(b).len() == (b.len() + 2) / 3 * 4,
    decreases b.len(),
{
    if b.len() > 3 {
        base64_text_len(b.skip(3));
    }
}

/// Decoding a base64 text gives back the bytes.
pub proof fn base64_round_trip(b: Seq<u8>)
    ensures
        base64_bytes(base64_text(b)) == Some(b),
{
    let c = choose|c: Seq<u8>| #[trigger] base64_text(c) == base64_text(b);
    base64_text_unique(b, c);
}

/// Decodes a base64 text.
///
/// Trusted: the `STANDARD` engine of `base64` decodes exactly the texts that it
/// would give as the encoding of some bytes: the standard alphabet, padding to four
/// characters, no stray bits.
#[verifier::external_body]
fn decode_standard(text: &str) -> (r: Option<Vec<u8>>)
    ensures
        match r {
            Some(b) => base64_text(b@) == text@,
            None => base64_bytes(text@) is None,
        },
{
    STANDARD.decode(text).ok()
}

/// The bytes that `text` is the base64 text of, if it is one.
pub fn decode_base64(text: &str) -> (r: Option<Vec<u8>>)
    ensures
        match r {
            Some(b) => base64_bytes(text@) == Some(b@),
            None => base64_bytes(text@) is None,
        },
{
    let r = decode_standard(text);
    proof {
        if let Some(b) = &r {
            base64_round_trip(b@);
        }
    }
    r
}

}
