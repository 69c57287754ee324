//! Encodings and digests: what each one is, and the calls that compute it.

use vstd::prelude::*;
use vstd::utf8::{
    decode_utf8, encode_utf8, is_ascii_chars, is_ascii_chars_encode_utf8, valid_utf8,
};
use crate::text::{from_chars, to_chars};
use base64::Engine;
use hmac::Mac;
use sha2::Digest;

verus! {

// ---------------------------------------------------------------------------
// Hexadecimal
// ---------------------------------------------------------------------------

/// The lower-case hexadecimal digit of `n`.
pub open spec fn hex_digit(n: int) -> char {
    if n < 10 {
        (48 + n) as char
    } else {
        (87 + n) as char
    }
}

/// Two lower-case hexadecimal digits for each byte, the high one first.
pub open spec fn hex_text(bytes: Seq<u8>) -> Seq<char> {
    Seq::new(
        2 * bytes.len(),
        |i: int|
            if i % 2 == 0 {
                hex_digit(bytes[i / 2] as int / 16)
            } else {
                hex_digit(bytes[i / 2] as int % 16)
            },
    )
}

/// `c` is a lower-case hexadecimal digit.
pub open spec fn is_hex_digit(c: char) -> bool {
    ('0' <= c && c <= '9') || ('a' <= c && c <= 'f')
}

/// `hex::encode`: two lower-case hexadecimal digits for each byte.
#[verifier::external_body]
pub(crate) fn hex_encode(data: &[u8]) -> (r: String)
    ensures
        r@ == hex_text(data@),
{
    hex::encode(data)
}

/// The first `n` hexadecimal digits of some bytes.
pub fn short_hex(bytes: &[u8], n: usize) -> (r: String)
    requires
        n <= 2 * bytes@.len(),
    ensures
        r@ == hex_text(bytes@).take(n as int),
        r@.len() == n,
        forall|i: int| 0 <= i < n ==> is_hex_digit(#[trigger] r@[i]),
{
    let digits = to_chars(hex_encode(bytes).as_str());
    assert(digits@.take(n as int) =~= digits@.subrange(0, n as int));
    proof {
        assert forall|i: int| 0 <= i < n implies is_hex_digit(#[trigger] digits@[i]) by {
            hex_text_is_hex(bytes@, i);
        }
    }
    from_chars(&digits, 0, n)
}

/// A text of hexadecimal digits holds nothing else.
pub proof fn hex_text_is_hex(bytes: Seq<u8>, i: int)
    requires
        0 <= i < 2 * bytes.len(),
    ensures
        is_hex_digit(hex_text(bytes)[i]),
{
    let b = bytes[i / 2];
    assert(0 <= b as int / 16 < 16);
    assert(0 <= b as int % 16 < 16);
}

/// Bytes whose first `n` differ have different first `2 * n` hexadecimal digits.
pub proof fn hex_text_is_injective(a: Seq<u8>, b: Seq<u8>, n: int)
    requires
        0 <= n <= a.len(),
        n <= b.len(),
        hex_text(a).take(2 * n) == hex_text(b).take(2 * n),
    ensures
        a.take(n) == b.take(n),
{
    assert forall|i: int| 0 <= i < n implies a.take(n)[i] == b.take(n)[i] by {
        let x = hex_text(a).take(2 * n);
        let y = hex_text(b).take(2 * n);
        assert(x[2 * i] == y[2 * i]);
        assert(x[2 * i + 1] == y[2 * i + 1]);
        assert((2 * i) / 2 == i && (2 * i + 1) / 2 == i);
        assert((2 * i) % 2 == 0 && (2 * i + 1) % 2 == 1);
        let p = a[i] as int;
        let q = b[i] as int;
        assert(hex_digit(p / 16) == hex_digit(q / 16));
        assert(hex_digit(p % 16) == hex_digit(q % 16));
        assert(0 <= p / 16 < 16 && 0 <= q / 16 < 16);
        assert(p / 16 == q / 16 && p % 16 == q % 16);
    }
    assert(a.take(n) =~= b.take(n));
}

// ---------------------------------------------------------------------------
// Base64 for URLs, without padding
// ---------------------------------------------------------------------------

/// The character that stands for the six-bit value `n`.
pub open spec fn base64_char(n: int) -> char {
    if n < 26 {
        (65 + n) as char
    } else if n < 52 {
        (71 + n) as char
    } else if n < 62 {
        (n - 4) as char
    } else if n == 62 {
        '-'
    } else {
        '_'
    }
}

/// The bytes in groups of three, each group as four six-bit values; a last
/// group of one or two bytes is filled up with zero bits and gives two or three
/// characters.
pub open spec fn base64url(b: Seq<u8>) -> Seq<char>
    decreases b.len(),
{
    if b.len() == 0 {
        Seq::empty()
    } else if b.len() == 1 {
        seq![base64_char(b[0] as int / 4), base64_char(b[0] as int % 4 * 16)]
    } else if b.len() == 2 {
        seq![
            base64_char(b[0] as int / 4),
            base64_char(b[0] as int % 4 * 16 + b[1] as int / 16),
            base64_char(b[1] as int % 16 * 4),
        ]
    } else {
        seq![
            base64_char(b[0] as int / 4),
            base64_char(b[0] as int % 4 * 16 + b[1] as int / 16),
            base64_char(b[1] as int % 16 * 4 + b[2] as int / 64),
            base64_char(b[2] as int % 64),
        ] + base64url(b.skip(3))
    }
}

/// `URL_SAFE_NO_PAD.encode` of the base64 crate.
#[verifier::external_body]
pub(crate) fn base64url_encode(data: &[u8]) -> (r: String)
    ensures
        r@ == base64url(data@),
{
    base64::engine::general_purpose::URL_SAFE_NO_PAD.encode(data)
}

/// `URL_SAFE_NO_PAD.decode` of the base64 crate. It takes no padding and no
/// stray trailing bits, so the texts that it reads are those that the encoder
/// writes, and what it gives is what was encoded.
#[verifier::external_body]
pub(crate) fn base64url_decode(text: &str) -> (r: Option<Vec<u8>>)
    ensures
        match r {
            Some(v) => base64url(v@) == text@,
            None => forall|b: Seq<u8>| #[trigger] base64url(b) != text@,
        },
{
    base64::engine::general_purpose::URL_SAFE_NO_PAD.decode(text).ok()
}

/// Different six-bit values have different characters.
proof fn base64_char_injective(m: int, n: int)
    requires
        0 <= m < 64,
        0 <= n < 64,
        base64_char(m) == base64_char(n),
    ensures
        m == n,
{
}

/// The characters of an encoded text are letters, digits, `-` and `_`.
pub proof fn base64url_alphabet(b: Seq<u8>, i: int)
    requires
        0 <= i < base64url(b).len(),
    ensures
        base64url(b)[i] != '.',
        base64url(b)[i] != '%',
        base64url(b)[i] != '&',
        base64url(b)[i] != '=',
        base64url(b)[i] != ';',
        base64url(b)[i] > ' ',
        '\0' <= base64url(b)[i] <= '\u{7f}',
    decreases b.len(),
{
    if b.len() > 2 {
        if i >= 4 {
            base64url_alphabet(b.skip(3), i - 4);
            assert(base64url(b)[i] == base64url(b.skip(3))[i - 4]);
        }
    }
}

/// The characters that the first group of bytes gives.
proof fn base64url_head(b: Seq<u8>)
    ensures
        b.len() >= 1 ==> base64url(b)[0] == base64_char(b[0] as int / 4),
        b.len() == 1 ==> base64url(b)[1] == base64_char(b[0] as int % 4 * 16),
        b.len() >= 2 ==> base64url(b)[1] == base64_char(b[0] as int % 4 * 16 + b[1] as int / 16),
        b.len() == 2 ==> base64url(b)[2] == base64_char(b[1] as int % 16 * 4),
        b.len() >= 3 ==> {
            &&& base64url(b)[2] == base64_char(b[1] as int % 16 * 4 + b[2] as int / 64)
            &&& base64url(b)[3] == base64_char(b[2] as int % 64)
            &&& base64url(b).skip(4) == base64url(b.skip(3))
        },
{
    if b.len() >= 3 {
        assert(base64url(b).skip(4) =~= base64url(b.skip(3)));
    }
}

/// Encoding loses nothing: equal texts come from equal bytes.
pub proof fn base64url_injective(a: Seq<u8>, b: Seq<u8>)
    requires
        base64url(a) == base64url(b),
    ensures
        a == b,
    decreases a.len(),
{
    base64url_length(a);
    base64url_length(b);
    base64url_head(a);
    base64url_head(b);
    assert(a.len() == b.len());
    if a.len() > 0 {
        base64_char_injective(a[0] as int / 4, b[0] as int / 4);
        if a.len() == 1 {
            base64_char_injective(a[0] as int % 4 * 16, b[0] as int % 4 * 16);
            assert(a =~= b);
        } else {
            base64_char_injective(
                a[0] as int % 4 * 16 + a[1] as int / 16,
                b[0] as int % 4 * 16 + b[1] as int / 16,
            );
            assert(a[0] == b[0]);
            if a.len() == 2 {
                base64_char_injective(a[1] as int % 16 * 4, b[1] as int % 16 * 4);
                assert(a =~= b);
            } else {
                base64_char_injective(
                    a[1] as int % 16 * 4 + a[2] as int / 64,
                    b[1] as int % 16 * 4 + b[2] as int / 64,
                );
                assert(a[1] == b[1]);
                base64_char_injective(a[2] as int % 64, b[2] as int % 64);
                assert(a[2] == b[2]);
                base64url_injective(a.skip(3), b.skip(3));
                assert(a =~= seq![a[0], a[1], a[2]] + a.skip(3));
                assert(b =~= seq![b[0], b[1], b[2]] + b.skip(3));
            }
        }
    } else {
        assert(a =~= b);
    }
}

/// The number of characters determines the number of bytes.
proof fn base64url_length(b: Seq<u8>)
    ensures
        base64url(b).len() == b.len() / 3 * 4 + (if b.len() % 3 == 0 {
            0nat
        } else {
            b.len() % 3 + 1
        }),
    decreases b.len(),
{
    if b.len() > 2 {
        base64url_length(b.skip(3));
    }
}

// ---------------------------------------------------------------------------
// Digests
// ---------------------------------------------------------------------------

/// The SHA-256 digest of some bytes.
pub uninterp spec fn sha256(data: Seq<u8>) -> Seq<u8>;

/// The HMAC-SHA-256 code of some bytes under a key.
pub uninterp spec fn hmac_sha256(key: Seq<u8>, data: Seq<u8>) -> Seq<u8>;

/// The MD5 digest of some bytes.
pub uninterp spec fn md5_digest(data: Seq<u8>) -> Seq<u8>;

/// `Sha256` of the sha2 crate over the whole input: 32 bytes, named `sha256`.
#[verifier::external_body]
pub(crate) fn sha256_digest(data: &[u8]) -> (r: Vec<u8>)
    ensures
        r@ == sha256(data@),
        r@.len() == 32,
{
    let mut hasher = sha2::Sha256::new();
    hasher.update(data);
    hasher.finalize().to_vec()
}

/// `Hmac<Sha256>` of the hmac crate, which takes a key of any length: 32 bytes,
/// named `hmac_sha256`.
#[verifier::external_body]
pub(crate) fn hmac_sha256_code(key: &[u8], data: &[u8]) -> (r: Vec<u8>)
    ensures
        r@ == hmac_sha256(key@, data@),
        r@.len() == 32,
{
    let mut mac = hmac::Hmac::<sha2::Sha256>::new_from_slice(key)
        .expect("hmac accepts any key length");
    mac.update(data);
    mac.finalize().into_bytes().to_vec()
}

/// `Mac::verify_slice` over `Hmac<Sha256>`: compares all of `code`, in constant
/// time, with the code of `data` under `key`.
#[verifier::external_body]
pub(crate) fn hmac_sha256_verify(key: &[u8], data: &[u8], code: &[u8]) -> (r: bool)
    ensures
        r == (code@ == hmac_sha256(key@, data@)),
{
    let mut mac = hmac::Hmac::<sha2::Sha256>::new_from_slice(key)
        .expect("hmac accepts any key length");
    mac.update(data);
    mac.verify_slice(code).is_ok()
}

/// `md5::compute`, formatted as lower-case hexadecimal: two digits for each of
/// the 16 bytes of the digest, which is named `md5_digest`.
#[verifier::external_body]
pub(crate) fn md5_hex(data: &[u8]) -> (r: String)
    ensures
        r@ == hex_text(md5_digest(data@)),
        r@.len() == 32,
{
    format!("{:x}", md5::compute(data))
}

// ---------------------------------------------------------------------------
// Percent encoding
// ---------------------------------------------------------------------------

/// An ASCII letter or digit.
pub open spec fn is_alphanumeric(b: u8) -> bool {
    (48 <= b <= 57) || (65 <= b <= 90) || (97 <= b <= 122)
}

/// The upper-case hexadecimal digit of `n`.
pub open spec fn upper_hex_digit(n: int) -> char {
    if n < 10 {
        (48 + n) as char
    } else {
        (55 + n) as char
    }
}

/// Letters and digits as they are, every other byte as `%` and two digits.
pub open spec fn percent_encoded(bytes: Seq<u8>) -> Seq<char>
    decreases bytes.len(),
{
    if bytes.len() == 0 {
        Seq::empty()
    } else {
        let b = bytes.last();
        percent_encoded(bytes.drop_last()) + (if is_alphanumeric(b) {
            seq![b as char]
        } else {
            seq!['%', upper_hex_digit(b as int / 16), upper_hex_digit(b as int % 16)]
        })
    }
}

/// `utf8_percent_encode` of the percent_encoding crate with its set
/// `NON_ALPHANUMERIC`.
#[verifier::external_body]
pub(crate) fn percent_encode(text: &str) -> (r: String)
    ensures
        r@ == percent_encoded(encode_utf8(text@)),
{
    percent_encoding::utf8_percent_encode(text, percent_encoding::NON_ALPHANUMERIC).to_string()
}

/// The value of a hexadecimal digit of either case; -1 for any other byte.
pub open spec fn hex_value(b: u8) -> int {
    if 48 <= b <= 57 {
        b - 48
    } else if 65 <= b <= 70 {
        b - 55
    } else if 97 <= b <= 102 {
        b - 87
    } else {
        -1
    }
}

/// Every `%` that two hexadecimal digits follow, with those digits, as the byte
/// that they spell; every other byte as it is.
pub open spec fn percent_decoded(bytes: Seq<u8>) -> Seq<u8>
    decreases bytes.len(),
{
    if bytes.len() == 0 {
        Seq::empty()
    } else if bytes.len() >= 3 && bytes[0] == 37 && hex_value(bytes[1]) >= 0 && hex_value(bytes[2])
        >= 0 {
        seq![(hex_value(bytes[1]) * 16 + hex_value(bytes[2])) as u8] + percent_decoded(
            bytes.skip(3),
        )
    } else {
        seq![bytes[0]] + percent_decoded(bytes.skip(1))
    }
}

/// The percent-decoding of a text, each part that is not UTF-8 replaced by
/// U+FFFD, as the percent_encoding crate gives it.
pub uninterp spec fn percent_decoded_text(text: Seq<char>) -> Seq<char>;

/// `percent_decode_str(..).decode_utf8_lossy()` of the percent_encoding crate.
/// Where the decoded bytes are UTF-8 the text is theirs; how a malformed part is
/// replaced is only named.
#[verifier::external_body]
pub(crate) fn percent_decode(text: &str) -> (r: String)
    ensures
        r@ == percent_decoded_text(text@),
        valid_utf8(percent_decoded(encode_utf8(text@))) ==> r@ == decode_utf8(
            percent_decoded(encode_utf8(text@)),
        ),
{
    percent_encoding::percent_decode_str(text).decode_utf8_lossy().to_string()
}

/// Bytes without a `%` are their own decoding.
pub proof fn percent_decoded_plain(bytes: Seq<u8>)
    requires
        forall|i: int| 0 <= i < bytes.len() ==> bytes[i] != 37,
    ensures
        percent_decoded(bytes) == bytes,
    decreases bytes.len(),
{
    if bytes.len() > 0 {
        percent_decoded_plain(bytes.skip(1));
        assert(seq![bytes[0]] + bytes.skip(1) =~= bytes);
    } else {
        assert(percent_decoded(bytes) =~= bytes);
    }
}

/// The encoding of some bytes holds only ASCII characters.
proof fn percent_encoded_is_ascii(bytes: Seq<u8>)
    ensures
        is_ascii_chars(percent_encoded(bytes)),
    decreases bytes.len(),
{
    if bytes.len() > 0 {
        percent_encoded_is_ascii(bytes.drop_last());
        let b = bytes.last();
        assert(0 <= b as int / 16 < 16);
        assert(0 <= b as int % 16 < 16);
    }
}

/// The characters of a text as bytes, one for one.
spec fn ascii_bytes(s: Seq<char>) -> Seq<u8> {
    s.map_values(|c: char| c as u8)
}

/// Decoding undoes encoding, whatever follows.
proof fn decoding_undoes_encoding(bytes: Seq<u8>, rest: Seq<u8>)
    ensures
        percent_decoded(ascii_bytes(percent_encoded(bytes)) + rest) == bytes + percent_decoded(
            rest,
        ),
    decreases bytes.len(),
{
    if bytes.len() == 0 {
        assert(ascii_bytes(percent_encoded(bytes)) + rest =~= rest);
        assert(bytes + percent_decoded(rest) =~= percent_decoded(rest));
    } else {
        let b = bytes.last();
        let init = bytes.drop_last();
        let tail = if is_alphanumeric(b) {
            seq![b as char]
        } else {
            seq!['%', upper_hex_digit(b as int / 16), upper_hex_digit(b as int % 16)]
        };
        let behind = ascii_bytes(tail) + rest;
        assert(ascii_bytes(percent_encoded(bytes)) + rest =~= ascii_bytes(percent_encoded(init))
            + behind);
        decoding_undoes_encoding(init, behind);
        assert(percent_decoded(behind) == seq![b] + percent_decoded(rest)) by {
            if is_alphanumeric(b) {
                assert(behind[0] == b);
                assert(behind.skip(1) =~= rest);
            } else {
                let high = b as int / 16;
                let low = b as int % 16;
                assert(0 <= high < 16 && 0 <= low < 16 && high * 16 + low == b);
                assert(behind[0] == 37);
                assert(behind[1] == upper_hex_digit(high) as u8);
                assert(behind[2] == upper_hex_digit(low) as u8);
                assert(hex_value(behind[1]) == high);
                assert(hex_value(behind[2]) == low);
                assert(behind.skip(3) =~= rest);
            }
        }
        assert(init + (seq![b] + percent_decoded(rest)) =~= bytes + percent_decoded(rest));
    }
}

/// Percent-encoding loses nothing: decoding gives back the bytes that were
/// encoded.
pub proof fn percent_encoding_loses_nothing(bytes: Seq<u8>)
    ensures
        percent_decoded(encode_utf8(percent_encoded(bytes))) == bytes,
{
    let text = percent_encoded(bytes);
    percent_encoded_is_ascii(bytes);
    is_ascii_chars_encode_utf8(text);
    assert(encode_utf8(text) =~= ascii_bytes(text) + Seq::empty());
    decoding_undoes_encoding(bytes, Seq::empty());
    assert(bytes + percent_decoded(Seq::empty()) =~= bytes);
}

} // verus!
