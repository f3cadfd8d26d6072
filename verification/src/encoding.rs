//! The binary format of on-chain values (BCS): what the bytes of an integer, a
//! byte vector and a text are, and that no two values share their bytes.

use vstd::arithmetic::power::*;
use vstd::prelude::*;
use vstd::utf8::*;

verus! {

/// The most items that a sequence can have.
pub const MAX_SEQUENCE_LENGTH: usize = 0x7fff_ffff;

/// `n` in ULEB128: seven bits a byte, the low ones first, and the top bit set in
/// every byte but the last.
pub open spec fn uleb128(n: nat) -> Seq<u8>
    decreases n,
{
    if n < 128 {
        seq![n as u8]
    } else {
        seq![(128 + n % 128) as u8] + uleb128(n / 128)
    }
}

/// The low `width` bytes of `n`, the lowest first.
pub open spec fn low_bytes(n: nat, width: nat) -> Seq<u8>
    decreases width,
{
    if width == 0 {
        seq![]
    } else {
        seq![(n % 256) as u8] + low_bytes(n / 256, (width - 1) as nat)
    }
}

/// An integer: eight bytes, the low one first.
pub open spec fn u64_bytes(n: u64) -> Seq<u8> {
    low_bytes(n as nat, 8)
}

/// A truth value: one byte.
pub open spec fn bool_bytes(b: bool) -> Seq<u8> {
    if b {
        seq![1u8]
    } else {
        seq![0u8]
    }
}

/// A byte vector: its length, then its bytes.
pub open spec fn vector_bytes(v: Seq<u8>) -> Seq<u8> {
    uleb128(v.len()) + v
}

/// A text: the byte vector of its UTF-8 form.
pub open spec fn text_bytes(s: Seq<char>) -> Seq<u8> {
    vector_bytes(encode_utf8(s))
}

/// Whether the format has room for a text.
pub open spec fn text_fits(s: Seq<char>) -> bool {
    encode_utf8(s).len() <= MAX_SEQUENCE_LENGTH
}

/// Whether the format has room for a text.
pub fn fits(s: &str) -> (r: bool)
    ensures
        r == text_fits(s@),
{
    s.as_bytes_vec().len() <= MAX_SEQUENCE_LENGTH
}

/// Two parts of the same length at the head of the same bytes are the same, and
/// so is what follows them.
pub proof fn equal_heads(a: Seq<u8>, b: Seq<u8>, x: Seq<u8>, y: Seq<u8>)
    requires
        a.len() == b.len(),
        a + x == b + y,
    ensures
        a == b,
        x == y,
{
    assert((a + x).take(a.len() as int) =~= a);
    assert((b + y).take(b.len() as int) =~= b);
    assert((a + x).skip(a.len() as int) =~= x);
    assert((b + y).skip(b.len() as int) =~= y);
}

proof fn low_bytes_len(n: nat, width: nat)
    ensures
        low_bytes(n, width).len() == width,
    decreases width,
{
    if width > 0 {
        low_bytes_len(n / 256, (width - 1) as nat);
    }
}

/// Equal low bytes leave a difference in what stands above them alone.
proof fn low_bytes_unique(a: nat, b: nat, width: nat)
    requires
        low_bytes(a, width) == low_bytes(b, width),
        a < pow(256, width),
        b < pow(256, width),
    ensures
        a == b,
    decreases width,
{
    reveal(pow);
    if width > 0 {
        let rest = (width - 1) as nat;
        let ha = seq![(a % 256) as u8];
        let hb = seq![(b % 256) as u8];
        equal_heads(ha, hb, low_bytes(a / 256, rest), low_bytes(b / 256, rest));
        assert(ha[0] == hb[0]);
        assert(pow(256, width) == 256 * pow(256, rest));
        low_bytes_unique(a / 256, b / 256, rest);
    }
}

/// The bytes of an integer end by themselves, and tell the integer.
pub proof fn u64_bytes_unique(a: u64, b: u64, x: Seq<u8>, y: Seq<u8>)
    requires
        u64_bytes(a) + x == u64_bytes(b) + y,
    ensures
        a == b,
        x == y,
{
    low_bytes_len(a as nat, 8);
    low_bytes_len(b as nat, 8);
    equal_heads(u64_bytes(a), u64_bytes(b), x, y);
    assert(pow(256, 8) == 0x1_0000_0000_0000_0000) by {
        reveal(pow);
        reveal_with_fuel(pow, 9);
    }
    low_bytes_unique(a as nat, b as nat, 8);
}

/// The bytes of a truth value end by themselves, and tell it.
pub proof fn bool_bytes_unique(a: bool, b: bool, x: Seq<u8>, y: Seq<u8>)
    requires
        bool_bytes(a) + x == bool_bytes(b) + y,
    ensures
        a == b,
        x == y,
{
    equal_heads(bool_bytes(a), bool_bytes(b), x, y);
    assert(bool_bytes(a)[0] == bool_bytes(b)[0]);
}

/// The bytes of a length end by themselves, and tell the length.
pub proof fn uleb128_unique(a: nat, b: nat, x: Seq<u8>, y: Seq<u8>)
    requires
        uleb128(a) + x == uleb128(b) + y,
    ensures
        a == b,
        x == y,
    decreases a,
{
    let s = uleb128(a) + x;
    let t = uleb128(b) + y;
    assert(s[0] == t[0]);
    assert(uleb128(a)[0] == s[0]);
    assert(uleb128(b)[0] == t[0]);
    if a < 128 {
        assert(b < 128);
        equal_heads(uleb128(a), uleb128(b), x, y);
    } else {
        assert(b >= 128);
        assert(a % 128 == b % 128);
        let ra = uleb128(a / 128);
        let rb = uleb128(b / 128);
        let ha = seq![(128 + a % 128) as u8];
        let hb = seq![(128 + b % 128) as u8];
        assert(ha + (ra + x) =~= s);
        assert(hb + (rb + y) =~= t);
        equal_heads(ha, hb, ra + x, rb + y);
        uleb128_unique(a / 128, b / 128, x, y);
    }
}

/// The bytes of a byte vector end by themselves, and tell the vector.
pub proof fn vector_bytes_unique(a: Seq<u8>, b: Seq<u8>, x: Seq<u8>, y: Seq<u8>)
    requires
        vector_bytes(a) + x == vector_bytes(b) + y,
    ensures
        a == b,
        x == y,
{
    assert(vector_bytes(a) + x =~= uleb128(a.len()) + (a + x));
    assert(vector_bytes(b) + y =~= uleb128(b.len()) + (b + y));
    uleb128_unique(a.len(), b.len(), a + x, b + y);
    equal_heads(a, b, x, y);
}

/// The bytes of a text end by themselves, and tell the text.
pub proof fn text_bytes_unique(a: Seq<char>, b: Seq<char>, x: Seq<u8>, y: Seq<u8>)
    requires
        text_bytes(a) + x == text_bytes(b) + y,
    ensures
        a == b,
        x == y,
{
    vector_bytes_unique(encode_utf8(a), encode_utf8(b), x, y);
    encode_utf8_decode_utf8(a);
    encode_utf8_decode_utf8(b);
}

/// The number that bytes write, the low one first.
pub open spec fn number_of_bytes(bytes: Seq<u8>) -> nat
    decreases bytes.len(),
{
    if bytes.len() == 0 {
        0
    } else {
        bytes.first() as nat + 256 * number_of_bytes(bytes.drop_first())
    }
}

/// An integer has eight bytes, which write it.
pub proof fn integers_are_written_in_eight_bytes(n: u64)
    ensures
        u64_bytes(n).len() == 8,
        number_of_bytes(u64_bytes(n)) == n,
{
    low_bytes_len(n as nat, 8);
    assert(pow(256, 8) == 0x1_0000_0000_0000_0000) by {
        reveal(pow);
        reveal_with_fuel(pow, 9);
    }
    lemma_low_bytes_number(n as nat, 8);
}

proof fn lemma_low_bytes_number(n: nat, width: nat)
    requires
        n < pow(256, width),
    ensures
        number_of_bytes(low_bytes(n, width)) == n,
    decreases width,
{
    reveal(pow);
    if width > 0 {
        let rest = (width - 1) as nat;
        assert(pow(256, width) == 256 * pow(256, rest));
        lemma_low_bytes_number(n / 256, rest);
        assert(low_bytes(n, width).drop_first() =~= low_bytes(n / 256, rest));
    }
}

/// A text has room if and only if its bytes are fewer than two to the thirty-first.
pub proof fn texts_have_room_below_two_gigabytes(s: Seq<char>)
    ensures
        text_fits(s) <==> encode_utf8(s).len() < 0x8000_0000,
{
}

/// A byte vector ends with its bytes, and a short one has its length in one byte before
/// them.
pub proof fn vectors_end_with_their_bytes(v: Seq<u8>)
    ensures
        v.is_suffix_of(vector_bytes(v)),
        v.len() < 128 ==> vector_bytes(v) == seq![v.len() as u8] + v,
{
}

}
