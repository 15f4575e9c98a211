//! Encodings: UTF-8, base64, percent-encoding, SHA-256, and random bytes.

use vstd::prelude::*;
use vstd::utf8::{
    decode_utf8, encode_utf8, encode_utf8_decode_utf8, encode_utf8_valid_utf8, is_ascii_chars,
    is_ascii_chars_encode_utf8, valid_utf8,
};

use crate::text::ascii_alphanumeric;

verus! {

// --------------------------------------------------------------------------- UTF-8

/// What a text says, where the bytes are UTF-8.
pub open spec fn utf8_text(bytes: Seq<u8>) -> Option<Seq<char>> {
    if valid_utf8(bytes) {
        Some(decode_utf8(bytes))
    } else {
        None
    }
}

/// `String::from_utf8`: the text that the bytes encode, or an error where they are not UTF-8.
#[verifier::external_body]
pub(crate) fn text_from_utf8(bytes: Vec<u8>) -> (text: Option<String>)
    ensures
        text.deep_view() == utf8_text(bytes@),
{
    String::from_utf8(bytes).ok()
}

/// What `String::from_utf8_lossy` makes of bytes.
pub uninterp spec fn lossy_text(bytes: Seq<u8>) -> Seq<char>;

/// `String::from_utf8_lossy`: the text that the bytes encode. Where they are not UTF-8 a
/// replacement character stands for what cannot be read; where it stands is left unsaid.
#[verifier::external_body]
pub(crate) fn text_from_utf8_lossy(bytes: &[u8]) -> (text: String)
    ensures
        text@ == lossy_text(bytes@),
        valid_utf8(bytes@) ==> text@ == decode_utf8(bytes@),
{
    String::from_utf8_lossy(bytes).into_owned()
}

// -------------------------------------------------------------------------- base64

/// The bytes that the standard base64 alphabet, with padding, writes as this text.
pub uninterp spec fn base64_decoded(text: Seq<char>) -> Option<Seq<u8>>;

/// `base64::Engine::decode` of the `STANDARD` engine. What it reads is a function of the
/// text; which texts it refuses is left unsaid.
#[verifier::external_body]
pub(crate) fn base64_decode(text: &str) -> (bytes: Option<Vec<u8>>)
    ensures
        match bytes {
            Some(bytes) => base64_decoded(text@) == Some(bytes@),
            None => base64_decoded(text@) is None,
        },
{
    base64::Engine::decode(&base64::engine::general_purpose::STANDARD, text).ok()
}

/// The text that the standard base64 alphabet, with padding, writes for these bytes.
pub uninterp spec fn base64_encoded(bytes: Seq<u8>) -> Seq<char>;

/// `base64::Engine::encode` of the `STANDARD` engine. It fails on inputs whose encoded
/// length no `usize` can hold.
#[verifier::external_body]
pub(crate) fn base64_encode(bytes: &[u8]) -> (text: String)
    requires
        bytes@.len() / 3 * 4 + 4 <= usize::MAX,
    ensures
        text@ == base64_encoded(bytes@),
{
    base64::Engine::encode(&base64::engine::general_purpose::STANDARD, bytes)
}

/// The characters of the URL-safe base64 alphabet.
pub open spec fn url_safe(c: char) -> bool {
    ascii_alphanumeric(c) || c == '-' || c == '_'
}

/// Whether a text is made of the URL-safe base64 alphabet.
pub open spec fn all_url_safe(text: Seq<char>) -> bool {
    forall|i: int| 0 <= i < text.len() ==> url_safe(#[trigger] text[i])
}

/// The text that the URL-safe base64 alphabet, without padding, writes for these bytes.
pub uninterp spec fn base64_url_encoded(bytes: Seq<u8>) -> Seq<char>;

/// `base64::Engine::encode` of the `URL_SAFE_NO_PAD` engine: four characters of the URL-safe
/// alphabet for every three bytes, and one more than the bytes that are left over. It fails
/// on inputs whose encoded length no `usize` can hold.
#[verifier::external_body]
pub(crate) fn base64_url_encode(bytes: &[u8]) -> (text: String)
    requires
        bytes@.len() / 3 * 4 + 4 <= usize::MAX,
    ensures
        text@ == base64_url_encoded(bytes@),
        text@.len() == bytes@.len() / 3 * 4 + (if bytes@.len() % 3 == 0 {
            0
        } else {
            bytes@.len() % 3 + 1
        }),
        all_url_safe(text@),
{
    base64::Engine::encode(&base64::engine::general_purpose::URL_SAFE_NO_PAD, bytes)
}

/// Bytes in URL-safe base64 without padding.
pub fn base64_url(bytes: &[u8]) -> (text: String)
    requires
        bytes@.len() / 3 * 4 + 4 <= usize::MAX,
    ensures
        text@ == base64_url_encoded(bytes@),
        text@.len() == bytes@.len() / 3 * 4 + (if bytes@.len() % 3 == 0 {
            0
        } else {
            bytes@.len() % 3 + 1
        }),
        all_url_safe(text@),
{
    base64_url_encode(bytes)
}

// -------------------------------------------------------------------------- SHA-256

/// The SHA-256 digest of some bytes.
pub uninterp spec fn sha256(bytes: Seq<u8>) -> Seq<u8>;

/// `sha2::Sha256::digest`: a function of the bytes, always 32 bytes long.
#[verifier::external_body]
pub(crate) fn sha256_digest(bytes: &[u8]) -> (digest: Vec<u8>)
    ensures
        digest@ == sha256(bytes@),
        digest@.len() == 32,
{
    <sha2::Sha256 as sha2::Digest>::digest(bytes).to_vec()
}

// --------------------------------------------------------------------- random bytes

/// `rand::fill`: as many bytes as asked for. Which ones is chance.
#[verifier::external_body]
pub(crate) fn random_bytes(n: usize) -> (bytes: Vec<u8>)
    ensures
        bytes@.len() == n,
{
    let mut bytes = vec![0u8; n];
    rand::fill(&mut bytes[..]);
    bytes
}

// ---------------------------------------------------------------- percent-encoding

/// The bytes that percent-encoding leaves alone.
pub open spec fn unreserved(b: u8) -> bool {
    ||| 48 <= b <= 57
    ||| 65 <= b <= 90
    ||| 97 <= b <= 122
    ||| b == 45
    ||| b == 46
    ||| b == 95
    ||| b == 126
}

/// A hexadecimal digit in upper case.
pub open spec fn hex_digit(n: int) -> char {
    if n < 10 {
        (48 + n) as char
    } else {
        (55 + n) as char
    }
}

/// One byte, percent-encoded.
pub open spec fn percent_byte(b: u8) -> Seq<char> {
    if unreserved(b) {
        seq![b as char]
    } else {
        seq!['%', hex_digit(b as int / 16), hex_digit(b as int % 16)]
    }
}

/// Bytes, percent-encoded one by one.
pub open spec fn percent_bytes(bytes: Seq<u8>) -> Seq<char>
    decreases bytes.len(),
{
    if bytes.len() == 0 {
        Seq::empty()
    } else {
        percent_bytes(bytes.drop_last()) + percent_byte(bytes.last())
    }
}

/// A text, percent-encoded.
pub open spec fn percent_encoded(text: Seq<char>) -> Seq<char> {
    percent_bytes(encode_utf8(text))
}

/// The value of a hexadecimal digit in either case.
pub open spec fn hex_value(b: u8) -> Option<int> {
    if 48 <= b <= 57 {
        Some(b - 48)
    } else if 65 <= b <= 70 {
        Some(b - 55)
    } else if 97 <= b <= 102 {
        Some(b - 87)
    } else {
        None
    }
}

/// Bytes with every percent sign that two hexadecimal digits follow replaced, digits and all,
/// by the byte that they write. Every other byte stands for itself.
pub open spec fn unescaped(bytes: Seq<u8>) -> Seq<u8>
    decreases bytes.len(),
{
    if bytes.len() == 0 {
        Seq::empty()
    } else if bytes[0] == 37 && bytes.len() >= 3 && hex_value(bytes[1]) is Some && hex_value(
        bytes[2],
    ) is Some {
        seq![(16 * hex_value(bytes[1])->0 + hex_value(bytes[2])->0) as u8] + unescaped(
            bytes.skip(3),
        )
    } else {
        seq![bytes[0]] + unescaped(bytes.skip(1))
    }
}

/// What a percent-encoded text says, where that is UTF-8.
pub open spec fn percent_decoded(text: Seq<char>) -> Option<Seq<char>> {
    utf8_text(unescaped(encode_utf8(text)))
}

/// `urlencoding::encode`: every byte of the UTF-8 encoding but the unreserved ones becomes a
/// percent sign and two hexadecimal digits.
#[verifier::external_body]
pub(crate) fn percent_encode(text: &str) -> (encoded: String)
    ensures
        encoded@ == percent_encoded(text@),
{
    urlencoding::encode(text).into_owned()
}

/// `urlencoding::decode`: a percent sign and two hexadecimal digits become one byte, a stray
/// percent sign and every other byte stay, and what comes out has to be UTF-8.
#[verifier::external_body]
pub(crate) fn percent_decode(text: &str) -> (decoded: Option<String>)
    ensures
        decoded.deep_view() == percent_decoded(text@),
{
    urlencoding::decode(text).ok().map(|decoded| decoded.into_owned())
}

/// Letters, digits and `-`, `.`, `_`, `~`, `%`.
pub open spec fn percent_safe(c: char) -> bool {
    ascii_alphanumeric(c) || c == '-' || c == '.' || c == '_' || c == '~' || c == '%'
}

/// What percent-encoding writes can stand in an address as it is.
pub proof fn percent_bytes_are_safe(bytes: Seq<u8>)
    ensures
        forall|i: int| 0 <= i < percent_bytes(bytes).len() ==> percent_safe(#[trigger] percent_bytes(bytes)[i]),
    decreases bytes.len(),
{
    if bytes.len() > 0 {
        percent_bytes_are_safe(bytes.drop_last());
        let front = percent_bytes(bytes.drop_last());
        let back = percent_byte(bytes.last());
        assert forall|i: int| 0 <= i < percent_bytes(bytes).len() implies percent_safe(
            #[trigger] percent_bytes(bytes)[i],
        ) by {
            if i < front.len() {
                assert(percent_bytes(bytes)[i] == front[i]);
            } else {
                assert(percent_bytes(bytes)[i] == back[i - front.len()]);
            }
        }
    }
}

/// Whether a text can stand in an address as it is.
pub open spec fn all_percent_safe(text: Seq<char>) -> bool {
    forall|i: int| 0 <= i < text.len() ==> percent_safe(#[trigger] text[i])
}

proof fn percent_bytes_from_the_front(bytes: Seq<u8>)
    requires
        bytes.len() > 0,
    ensures
        percent_bytes(bytes) == percent_byte(bytes[0]) + percent_bytes(bytes.skip(1)),
    decreases bytes.len(),
{
    reveal_with_fuel(percent_bytes, 2);
    let rest = bytes.skip(1);
    if bytes.len() > 1 {
        let front = bytes.drop_last();
        percent_bytes_from_the_front(front);
        assert(front.skip(1) =~= rest.drop_last());
        assert(percent_bytes(bytes) =~= percent_byte(bytes[0]) + percent_bytes(rest));
    } else {
        assert(bytes.drop_last() =~= Seq::empty());
        assert(rest =~= Seq::empty());
        assert(percent_bytes(bytes) =~= percent_byte(bytes[0]) + percent_bytes(rest));
    }
}

/// The UTF-8 encoding of a text that can stand in an address: one byte for each character.
spec fn plain_bytes(text: Seq<char>) -> Seq<u8> {
    text.map_values(|c: char| c as u8)
}

proof fn percent_bytes_are_unescaped(bytes: Seq<u8>)
    ensures
        unescaped(plain_bytes(percent_bytes(bytes))) == bytes,
    decreases bytes.len(),
{
    if bytes.len() > 0 {
        let first = bytes[0];
        let rest = bytes.skip(1);
        percent_bytes_from_the_front(bytes);
        percent_bytes_are_unescaped(rest);
        let all = plain_bytes(percent_bytes(bytes));
        let tail = plain_bytes(percent_bytes(rest));
        if unreserved(first) {
            assert(all[0] == first);
            assert(all.skip(1) =~= tail);
            assert(unescaped(all) == seq![first] + unescaped(tail));
        } else {
            assert(percent_byte(first).len() == 3);
            assert(all[0] == 37);
            assert(all[1] == hex_digit(first as int / 16) as u8);
            assert(all[2] == hex_digit(first as int % 16) as u8);
            assert(hex_value(all[1]) == Some(first as int / 16));
            assert(hex_value(all[2]) == Some(first as int % 16));
            assert(all.skip(3) =~= tail);
            assert(unescaped(all) == seq![first] + unescaped(tail));
        }
        assert(seq![first] + rest =~= bytes);
    } else {
        assert(plain_bytes(percent_bytes(bytes)) =~= Seq::empty());
    }
}

/// A percent-encoded text can stand in an address as it is, and decoding gives the text back.
pub proof fn percent_encoding_is_undone(text: Seq<char>)
    ensures
        all_percent_safe(percent_encoded(text)),
        percent_decoded(percent_encoded(text)) == Some(text),
{
    let encoded = percent_encoded(text);
    percent_bytes_are_safe(encode_utf8(text));
    percent_bytes_are_unescaped(encode_utf8(text));
    assert(is_ascii_chars(encoded)) by {
        assert forall|i: int| 0 <= i < encoded.len() implies '\0' <= #[trigger] encoded[i]
            <= '\u{7f}' by {
            assert(percent_safe(encoded[i]));
        }
    }
    is_ascii_chars_encode_utf8(encoded);
    assert(encode_utf8(encoded) =~= plain_bytes(encoded));
    encode_utf8_valid_utf8(text);
    encode_utf8_decode_utf8(text);
}

} // verus!
