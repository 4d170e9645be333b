//! Message authentication: HMAC-SHA256 tags and how requests spell them.

use crate::text;
use base64::Engine;
use hmac::Mac;
use vstd::prelude::*;

verus! {

/// The HMAC-SHA256 tag of `message` under `key`, as `hmac::Hmac<sha2::Sha256>`
/// computes it.
pub uninterp spec fn hmac_sha256(key: Seq<u8>, message: Seq<u8>) -> Seq<u8>;

/// `Hmac::<Sha256>::new_from_slice`, which takes a key of any length,
/// `Mac::update` with the message, and `Mac::verify_slice`, which accepts the tag
/// that equals the whole computed tag and no other. The computed tag is a
/// function of key and message alone, named `hmac_sha256`.
#[verifier::external_body]
pub(crate) fn tag_matches(key: &[u8], message: &[u8], tag: &[u8]) -> (r: Option<bool>)
    ensures
        r == Some(tag@ == hmac_sha256(key@, message@)),
{
    let mut mac = hmac::Hmac::<sha2::Sha256>::new_from_slice(key).ok()?;
    mac.update(message);
    Some(mac.verify_slice(tag).is_ok())
}

/// The value of a hexadecimal digit in either case.
pub open spec fn hex_value(c: char) -> Option<int> {
    if '0' <= c <= '9' {
        Some(c as u32 - '0' as u32)
    } else if 'a' <= c <= 'f' {
        Some(c as u32 - 'a' as u32 + 10)
    } else if 'A' <= c <= 'F' {
        Some(c as u32 - 'A' as u32 + 10)
    } else {
        None
    }
}

/// The bytes that hexadecimal text spells, two digits each; nothing where the
/// digits do not pair up or some character is no digit.
pub open spec fn hex_decoded(text: Seq<char>) -> Option<Seq<u8>> {
    if text.len() % 2 == 0 && forall|i: int|
        0 <= i < text.len() ==> hex_value(#[trigger] text[i]) is Some {
        Some(
            Seq::new(
                text.len() / 2,
                |i: int| (16 * hex_value(text[2 * i])->0 + hex_value(text[2 * i + 1])->0) as u8,
            ),
        )
    } else {
        None
    }
}

/// The hexadecimal digit of `d` in lower case, for `d` below sixteen.
pub open spec fn hex_digit(d: int) -> char {
    if d < 10 {
        ('0' as u32 + d) as char
    } else {
        ('a' as u32 + d - 10) as char
    }
}

/// The bytes as lower-case hexadecimal text.
pub open spec fn hex_encoded(bytes: Seq<u8>) -> Seq<char> {
    Seq::new(
        2 * bytes.len(),
        |i: int|
            if i % 2 == 0 {
                hex_digit(bytes[i / 2] as int / 16)
            } else {
                hex_digit(bytes[i / 2] as int % 16)
            },
    )
}

/// `hex::decode`: an even number of digits in either case, each pair a byte,
/// high digit first. Which error it gives otherwise is not told.
#[verifier::external_body]
pub(crate) fn decode_hex(text: &str) -> (r: Option<Vec<u8>>)
    ensures
        match r {
            Some(bytes) => hex_decoded(text@) == Some(bytes@),
            None => hex_decoded(text@) is None,
        },
{
    hex::decode(text).ok()
}

/// Decoding what was encoded gives the bytes back.
pub proof fn hex_round_trip(bytes: Seq<u8>)
    ensures
        hex_decoded(hex_encoded(bytes)) == Some(bytes),
{
    let text = hex_encoded(bytes);
    assert forall|d: int| 0 <= d < 16 implies #[trigger] hex_value(hex_digit(d)) == Some(d) by {}
    assert forall|i: int| 0 <= i < text.len() implies hex_value(#[trigger] text[i]) is Some by {
        let b = bytes[i / 2] as int;
        assert(0 <= b / 16 < 16 && 0 <= b % 16 < 16);
        assert(hex_value(hex_digit(b / 16)) is Some && hex_value(hex_digit(b % 16)) is Some);
    }
    let back = hex_decoded(text)->0;
    assert forall|i: int| 0 <= i < bytes.len() implies #[trigger] back[i] == bytes[i] by {
        let b = bytes[i] as int;
        assert(text[2 * i] == hex_digit(b / 16));
        assert(text[2 * i + 1] == hex_digit(b % 16));
        assert(hex_value(hex_digit(b / 16)) == Some(b / 16));
        assert(hex_value(hex_digit(b % 16)) == Some(b % 16));
    }
    assert(back =~= bytes);
}

/// The base64 digit of `d` in the standard alphabet, for `d` below sixty-four.
pub open spec fn base64_digit(d: int) -> char {
    if d < 26 {
        ('A' as u32 + d) as char
    } else if d < 52 {
        ('a' as u32 + d - 26) as char
    } else if d < 62 {
        ('0' as u32 + d - 52) as char
    } else if d == 62 {
        '+'
    } else {
        '/'
    }
}

/// The byte at `i`, and zero past the end.
pub open spec fn byte_or_zero(bytes: Seq<u8>, i: int) -> int {
    if 0 <= i < bytes.len() {
        bytes[i] as int
    } else {
        0
    }
}

/// The bytes as padded base64 text in the standard alphabet: three bytes make
/// four digits, and `=` stands where no byte has a bit.
pub open spec fn base64_encoded(bytes: Seq<u8>) -> Seq<char> {
    Seq::new(
        (bytes.len() + 2) / 3 * 4,
        |i: int|
            {
                let k = i / 4 * 3;
                let (a, b, c) = (
                    byte_or_zero(bytes, k),
                    byte_or_zero(bytes, k + 1),
                    byte_or_zero(bytes, k + 2),
                );
                if k + i % 4 > bytes.len() {
                    '='
                } else if i % 4 == 0 {
                    base64_digit(a / 4)
                } else if i % 4 == 1 {
                    base64_digit(a % 4 * 16 + b / 16)
                } else if i % 4 == 2 {
                    base64_digit(b % 16 * 4 + c / 64)
                } else {
                    base64_digit(c % 64)
                }
            },
    )
}

/// `base64::engine::general_purpose::STANDARD.decode`. The engine asks for
/// canonical padding and for zero bits past the last byte, so that it accepts a
/// text exactly when some bytes are encoded as it, and gives those bytes. Which
/// error it gives otherwise is not told.
#[verifier::external_body]
pub(crate) fn decode_base64(text: &str) -> (r: Option<Vec<u8>>)
    ensures
        match r {
            Some(bytes) => base64_encoded(bytes@) == text@,
            None => forall|bytes: Seq<u8>| #[trigger] base64_encoded(bytes) != text@,
        },
{
    base64::engine::general_purpose::STANDARD.decode(text).ok()
}

proof fn base64_digit_is_injective(d: int, e: int)
    requires
        0 <= d < 64,
        0 <= e < 64,
        base64_digit(d) == base64_digit(e),
    ensures
        d == e,
{
}

proof fn base64_digit_is_no_padding(d: int)
    requires
        0 <= d < 64,
    ensures
        base64_digit(d) != '=',
{
}

/// Only the padding differs from one remainder to the next, and it tells the
/// number of bytes.
proof fn base64_text_tells_length(a: Seq<u8>, b: Seq<u8>)
    requires
        base64_encoded(a) == base64_encoded(b),
    ensures
        a.len() == b.len(),
{
    let s = base64_encoded(a);
    let t = base64_encoded(b);
    assert((a.len() + 2) / 3 * 4 == s.len());
    assert((b.len() + 2) / 3 * 4 == t.len());
    if a.len() != b.len() {
        let (short, long) = if a.len() < b.len() {
            (a, b)
        } else {
            (b, a)
        };
        let i = s.len() - 4 + (long.len() - (s.len() / 4 - 1) * 3);
        let k = i / 4 * 3;
        assert(k == s.len() / 4 * 3 - 3);
        assert(base64_encoded(short)[i] == '=');
        let (x, y, z) = (
            byte_or_zero(long, k),
            byte_or_zero(long, k + 1),
            byte_or_zero(long, k + 2),
        );
        base64_digit_is_no_padding(x / 4);
        base64_digit_is_no_padding(x % 4 * 16 + y / 16);
        base64_digit_is_no_padding(y % 16 * 4 + z / 64);
        base64_digit_is_no_padding(z % 64);
        assert(base64_encoded(long)[i] != '=');
    }
}

/// Different bytes have different base64 texts.
pub proof fn base64_is_injective(a: Seq<u8>, b: Seq<u8>)
    requires
        base64_encoded(a) == base64_encoded(b),
    ensures
        a == b,
{
    base64_text_tells_length(a, b);
    let s = base64_encoded(a);
    let t = base64_encoded(b);
    assert forall|j: int| 0 <= j < a.len() implies #[trigger] a[j] == b[j] by {
        let k = j / 3 * 3;
        let q = j / 3 * 4;
        let (a0, a1, a2) = (byte_or_zero(a, k), byte_or_zero(a, k + 1), byte_or_zero(a, k + 2));
        let (b0, b1, b2) = (byte_or_zero(b, k), byte_or_zero(b, k + 1), byte_or_zero(b, k + 2));
        assert(q / 4 * 3 == k && (q + 1) / 4 * 3 == k && (q + 2) / 4 * 3 == k && (q + 3) / 4 * 3
            == k);
        assert(q % 4 == 0 && (q + 1) % 4 == 1 && (q + 2) % 4 == 2 && (q + 3) % 4 == 3);
        assert(s[q] == t[q] && s[q + 1] == t[q + 1]);
        base64_digit_is_injective(a0 / 4, b0 / 4);
        base64_digit_is_injective(a0 % 4 * 16 + a1 / 16, b0 % 4 * 16 + b1 / 16);
        if j % 3 >= 1 {
            assert(s[q + 2] == t[q + 2]);
            base64_digit_is_injective(a1 % 16 * 4 + a2 / 64, b1 % 16 * 4 + b2 / 64);
        }
        if j % 3 == 2 {
            assert(s[q + 3] == t[q + 3]);
            base64_digit_is_injective(a2 % 64, b2 % 64);
        }
    }
    assert(a =~= b);
}

/// The hexadecimal digits are the ten decimal ones and the letters from `a` to `f`,
/// read in either case.
pub proof fn hex_digits(d: int)
    requires
        0 <= d < 16,
    ensures
        hex_digit(d) == "0123456789abcdef"@[d],
        hex_value("0123456789abcdef"@[d]) == Some(d),
        hex_value("0123456789ABCDEF"@[d]) == Some(d),
{
    reveal_strlit("0123456789abcdef");
    reveal_strlit("0123456789ABCDEF");
}

proof fn hex_digit_by_case(c: char, d: int)
    requires
        0 <= d < 16,
    ensures
        hex_value(c) == Some(d) <==> text::ascii_lower(c) == text::ascii_lower(hex_digit(d)),
{
}

/// The half of a byte that the hexadecimal digit at `i` spells.
pub open spec fn half_byte(bytes: Seq<u8>, i: int) -> int {
    if i % 2 == 0 {
        bytes[i / 2] as int / 16
    } else {
        bytes[i / 2] as int % 16
    }
}

proof fn hex_decoded_by_digit(text: Seq<char>, bytes: Seq<u8>)
    ensures
        hex_decoded(text) == Some(bytes) <==> text.len() == 2 * bytes.len() && forall|i: int|
            0 <= i < text.len() ==> hex_value(#[trigger] text[i]) == Some(half_byte(bytes, i)),
{
    if hex_decoded(text) == Some(bytes) {
        assert forall|i: int| 0 <= i < text.len() implies hex_value(#[trigger] text[i]) == Some(
            half_byte(bytes, i),
        ) by {
            let k = i / 2;
            let (high, low) = (text[2 * k], text[2 * k + 1]);
            assert(hex_value(high) is Some && hex_value(low) is Some);
            assert(bytes[k] == (16 * hex_value(high)->0 + hex_value(low)->0) as u8);
            assert(i == 2 * k || i == 2 * k + 1);
        }
    }
    if text.len() == 2 * bytes.len() && forall|i: int|
        0 <= i < text.len() ==> hex_value(#[trigger] text[i]) == Some(half_byte(bytes, i)) {
        let back = hex_decoded(text)->0;
        assert forall|k: int| 0 <= k < bytes.len() implies #[trigger] back[k] == bytes[k] by {
            assert(hex_value(text[2 * k]) == Some(half_byte(bytes, 2 * k)));
            assert(hex_value(text[2 * k + 1]) == Some(half_byte(bytes, 2 * k + 1)));
        }
        assert(back =~= bytes);
    }
}

/// A text spells bytes in hexadecimal exactly when it is the bytes' encoding up to
/// the case of its letters.
pub proof fn hex_is_read_in_either_case(text: Seq<char>, bytes: Seq<u8>)
    ensures
        hex_decoded(text) == Some(bytes) <==> text::same_ignoring_ascii_case(
            text,
            hex_encoded(bytes),
        ),
{
    let spelt = hex_encoded(bytes);
    hex_decoded_by_digit(text, bytes);
    if text.len() == spelt.len() {
        assert forall|i: int| 0 <= i < text.len() implies (hex_value(#[trigger] text[i]) == Some(
            half_byte(bytes, i),
        ) <==> text::ascii_lower(text[i]) == text::ascii_lower(spelt[i])) by {
            assert(0 <= half_byte(bytes, i) < 16);
            assert(spelt[i] == hex_digit(half_byte(bytes, i)));
            hex_digit_by_case(text[i], half_byte(bytes, i));
        }
    }
}

/// The base64 digits are those of the standard alphabet.
pub proof fn base64_digits(d: int)
    requires
        0 <= d < 64,
    ensures
        base64_digit(d) == "ABCDEFGHIJKLMNOPQRSTUVWXYZabcdefghijklmnopqrstuvwxyz0123456789+/"@[d],
{
    reveal_strlit("ABCDEFGHIJKLMNOPQRSTUVWXYZabcdefghijklmnopqrstuvwxyz0123456789+/");
}

/// Three bytes make four base64 digits of six bits each, high bits first.
pub proof fn base64_packs_three_bytes(bytes: Seq<u8>, k: int)
    requires
        0 <= k,
        3 * k + 3 <= bytes.len(),
    ensures
        exists|a: int, b: int, c: int, d: int|
            {
                &&& 0 <= a < 64 && 0 <= b < 64 && 0 <= c < 64 && 0 <= d < 64
                &&& base64_encoded(bytes).subrange(4 * k, 4 * k + 4) == #[trigger] seq![
                    base64_digit(a),
                    base64_digit(b),
                    base64_digit(c),
                    base64_digit(d),
                ]
                &&& a * 262144 + b * 4096 + c * 64 + d == bytes[3 * k] * 65536 + bytes[3 * k + 1]
                    * 256 + bytes[3 * k + 2]
            },
{
    let (x, y, z) = (bytes[3 * k] as int, bytes[3 * k + 1] as int, bytes[3 * k + 2] as int);
    let (a, b, c, d) = (x / 4, x % 4 * 16 + y / 16, y % 16 * 4 + z / 64, z % 64);
    let s = base64_encoded(bytes);
    assert(4 * k / 4 * 3 == 3 * k && (4 * k + 1) / 4 * 3 == 3 * k && (4 * k + 2) / 4 * 3 == 3 * k
        && (4 * k + 3) / 4 * 3 == 3 * k);
    assert(s.subrange(4 * k, 4 * k + 4) =~= seq![
        base64_digit(a),
        base64_digit(b),
        base64_digit(c),
        base64_digit(d),
    ]);
}

/// The text has four characters for every three bytes or part of them, and is padded
/// with one or two `=` where the last part is of two bytes or of one.
pub proof fn base64_pads_the_end(bytes: Seq<u8>)
    requires
        bytes.len() > 0,
    ensures
        ({
            let s = base64_encoded(bytes);
            let n = s.len() as int;
            &&& 3 * n >= 4 * bytes.len() && 3 * n < 4 * bytes.len() + 12 && n % 4 == 0
            &&& s[n - 1] == '=' <==> bytes.len() % 3 != 0
            &&& s[n - 2] == '=' <==> bytes.len() % 3 == 1
            &&& forall|i: int| 0 <= i < n - 2 ==> #[trigger] s[i] != '='
        }),
{
    let s = base64_encoded(bytes);
    let n = s.len() as int;
    assert forall|i: int| 0 <= i < n implies (#[trigger] s[i] == '=' <==> i / 4 * 3 + i % 4
        > bytes.len()) by {
        let k = i / 4 * 3;
        let (a, b, c) = (
            byte_or_zero(bytes, k),
            byte_or_zero(bytes, k + 1),
            byte_or_zero(bytes, k + 2),
        );
        base64_digit_is_no_padding(a / 4);
        base64_digit_is_no_padding(a % 4 * 16 + b / 16);
        base64_digit_is_no_padding(b % 16 * 4 + c / 64);
        base64_digit_is_no_padding(c % 64);
    }
    assert(n == (bytes.len() + 2) / 3 * 4);
    assert((n - 1) / 4 * 3 + (n - 1) % 4 == n / 4 * 3);
    assert((n - 2) / 4 * 3 + (n - 2) % 4 == n / 4 * 3 - 1);
    assert forall|i: int| 0 <= i < n - 2 implies #[trigger] s[i] != '=' by {
        assert(i / 4 * 3 + i % 4 <= n / 4 * 3 - 2);
    }
}

} // verus!
