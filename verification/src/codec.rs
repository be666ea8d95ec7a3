//! Encodings, digests, ciphers and chance.

use aes::cipher::block_padding::Pkcs7;
use aes::cipher::{BlockDecryptMut, BlockEncryptMut, KeyInit};
use base64::Engine;
use rand::RngCore;
use sha2::Digest;
use vstd::prelude::*;
use vstd::utf8::encode_utf8;

verus! {

// ---------------------------------------------------------------------------------------------
// Hexadecimal
// ---------------------------------------------------------------------------------------------

/// The digit for `d`, in lower case.
pub open spec fn hex_digit(d: int) -> char {
    if d < 10 {
        (48 + d) as char
    } else {
        (87 + d) as char
    }
}

/// Two digits for each byte.
pub open spec fn hex_text(bytes: Seq<u8>) -> Seq<char> {
    Seq::new(
        2 * bytes.len(),
        |i: int|
            if i % 2 == 0 {
                hex_digit(bytes[i / 2] as int / 16)
            } else {
                hex_digit(bytes[i / 2] as int % 16)
            },
    )
}

/// A hexadecimal digit, in lower or upper case.
pub open spec fn is_hex_digit(c: char) -> bool {
    ('0' <= c <= '9') || ('a' <= c <= 'f') || ('A' <= c <= 'F')
}

/// Whether every character is a hexadecimal digit.
pub open spec fn all_hex(s: Seq<char>) -> bool {
    forall|i: int| 0 <= i < s.len() ==> is_hex_digit(#[trigger] s[i])
}

/// The value of a hexadecimal digit.
pub open spec fn hex_value(c: char) -> int {
    if c <= '9' {
        c as int - 48
    } else if c <= 'F' {
        c as int - 55
    } else {
        c as int - 87
    }
}

/// The byte for each two digits.
pub open spec fn hex_bytes(s: Seq<char>) -> Seq<u8> {
    Seq::new(s.len() / 2, |i: int| (16 * hex_value(s[2 * i]) + hex_value(s[2 * i + 1])) as u8)
}

/// `hex::encode`: two digits for each byte, in lower case.
#[verifier::external_body]
pub(crate) fn hex_encode(bytes: &[u8]) -> (r: String)
    ensures
        r@ == hex_text(bytes@),
{
    hex::encode(bytes)
}

/// What `hex::decode` says of a text that it does not decode.
pub uninterp spec fn hex_complaint(s: Seq<char>) -> Seq<char>;

/// `hex::decode`: the byte for each two digits of a text of hexadecimal digits, of which there is
/// an even number. Any other text is an error, of which only the name of its text is claimed.
#[verifier::external_body]
pub(crate) fn hex_decode(s: &str) -> (r: Result<Vec<u8>, String>)
    ensures
        match r {
            Ok(b) => all_hex(s@) && s@.len() % 2 == 0 && b@ == hex_bytes(s@),
            Err(e) => !(all_hex(s@) && s@.len() % 2 == 0) && e@ == hex_complaint(s@),
        },
{
    hex::decode(s).map_err(|e| e.to_string())
}

/// What was written in hexadecimal reads back.
pub proof fn hex_reads_back(bytes: Seq<u8>)
    ensures
        all_hex(hex_text(bytes)),
        hex_text(bytes).len() % 2 == 0,
        hex_bytes(hex_text(bytes)) == bytes,
{
    let s = hex_text(bytes);
    assert forall|i: int| 0 <= i < s.len() implies is_hex_digit(#[trigger] s[i]) by {
        let b = bytes[i / 2] as int;
        assert(0 <= b / 16 < 16 && 0 <= b % 16 < 16);
    }
    assert forall|i: int| 0 <= i < bytes.len() implies #[trigger] hex_bytes(s)[i] == bytes[i] by {
        let b = bytes[i] as int;
        assert(s[2 * i] == hex_digit(b / 16)) by {
            assert((2 * i) / 2 == i && (2 * i) % 2 == 0);
        }
        assert(s[2 * i + 1] == hex_digit(b % 16)) by {
            assert((2 * i + 1) / 2 == i && (2 * i + 1) % 2 == 1);
        }
        assert(hex_value(hex_digit(b / 16)) == b / 16);
        assert(hex_value(hex_digit(b % 16)) == b % 16);
        assert(16 * (b / 16) + b % 16 == b);
    }
    assert(hex_bytes(s) =~= bytes);
}

// ---------------------------------------------------------------------------------------------
// Base64
// ---------------------------------------------------------------------------------------------

/// What base64 makes of bytes, with the standard alphabet and padding.
pub uninterp spec fn base64_text(bytes: Seq<u8>) -> Seq<char>;

/// What base64 makes of a text: the bytes, or what is wrong with the text.
pub uninterp spec fn base64_bytes(s: Seq<char>) -> Result<Seq<u8>, Seq<char>>;

/// A letter, a digit, `+`, `/`, or the `=` that fills up.
pub open spec fn is_base64_char(c: char) -> bool {
    ('A' <= c <= 'Z') || ('a' <= c <= 'z') || ('0' <= c <= '9') || c == '+' || c == '/' || c == '='
}

/// `base64::Engine::encode` of the standard engine: the text for the bytes, which decodes to them. It
/// has four characters of the standard alphabet, or of the padding, for each three bytes begun.
#[verifier::external_body]
pub(crate) fn base64_encode(bytes: &[u8]) -> (r: String)
    ensures
        r@ == base64_text(bytes@),
        base64_bytes(r@) is Ok,
        base64_bytes(r@)->Ok_0 == bytes@,
        r@.len() == 4 * ((bytes@.len() + 2) / 3),
        forall|i: int| 0 <= i < r@.len() ==> is_base64_char(#[trigger] r@[i]),
{
    base64::engine::general_purpose::STANDARD.encode(bytes)
}

/// `base64::Engine::decode` of the standard engine: the bytes, or the text of the error. What it
/// decodes is padded, with four characters for each three bytes begun.
#[verifier::external_body]
pub(crate) fn base64_decode(s: &str) -> (r: Result<Vec<u8>, String>)
    ensures
        match r {
            Ok(b) => base64_bytes(s@) == Ok::<Seq<u8>, Seq<char>>(b@) && s@.len() == 4 * ((b@.len()
                + 2) / 3),
            Err(e) => base64_bytes(s@) == Err::<Seq<u8>, Seq<char>>(e@),
        },
{
    base64::engine::general_purpose::STANDARD.decode(s).map_err(|e| e.to_string())
}

// ---------------------------------------------------------------------------------------------
// URLs
// ---------------------------------------------------------------------------------------------

/// A byte that stands for itself in a query: a letter, a digit, `-`, `.`, `_` or `~`.
pub open spec fn is_plain_byte(b: u8) -> bool {
    ||| 0x30 <= b <= 0x39
    ||| 0x41 <= b <= 0x5a
    ||| 0x61 <= b <= 0x7a
    ||| b == 0x2d
    ||| b == 0x2e
    ||| b == 0x5f
    ||| b == 0x7e
}

/// The digit for `d`, in upper case.
pub open spec fn large_hex_digit(d: int) -> char {
    if d < 10 {
        (48 + d) as char
    } else {
        (55 + d) as char
    }
}

/// A byte as it stands in a query.
pub open spec fn query_byte(b: u8) -> Seq<char> {
    if is_plain_byte(b) {
        seq![b as char]
    } else {
        seq!['%', large_hex_digit(b as int / 16), large_hex_digit(b as int % 16)]
    }
}

/// Bytes as they stand in a query.
pub open spec fn query_bytes(bytes: Seq<u8>) -> Seq<char>
    decreases bytes.len(),
{
    if bytes.len() == 0 {
        Seq::empty()
    } else {
        query_bytes(bytes.drop_last()) + query_byte(bytes.last())
    }
}

/// A text as it stands in a query.
pub open spec fn query_text(s: Seq<char>) -> Seq<char> {
    query_bytes(encode_utf8(s))
}

/// `urlencoding::encode`: letters, digits, `-`, `.`, `_` and `~` as they are, and a percent sign
/// and two digits for any other byte of the UTF-8 form of the text.
#[verifier::external_body]
pub(crate) fn url_encode(s: &str) -> (r: String)
    ensures
        r@ == query_text(s@),
{
    urlencoding::encode(s).into_owned()
}

// ---------------------------------------------------------------------------------------------
// Digests
// ---------------------------------------------------------------------------------------------

/// The MD5 digest of the UTF-8 form of a text.
pub uninterp spec fn md5_of(s: Seq<char>) -> Seq<u8>;

/// `md5::compute`: the digest of the UTF-8 form of a text, 16 bytes.
#[verifier::external_body]
pub(crate) fn md5_digest(s: &str) -> (r: Vec<u8>)
    ensures
        r@ == md5_of(s@),
        r@.len() == 16,
{
    md5::compute(s.as_bytes()).to_vec()
}

/// The SHA-256 digest of the UTF-8 form of a text.
pub uninterp spec fn sha256_of(s: Seq<char>) -> Seq<u8>;

/// `sha2::Sha256::digest`: the digest of the UTF-8 form of a text, 32 bytes.
#[verifier::external_body]
pub(crate) fn sha256_digest(s: &str) -> (r: Vec<u8>)
    ensures
        r@ == sha256_of(s@),
        r@.len() == 32,
{
    sha2::Sha256::digest(s.as_bytes()).to_vec()
}

// ---------------------------------------------------------------------------------------------
// AES
// ---------------------------------------------------------------------------------------------

/// How many bytes a message takes once it is padded to whole blocks of 16.
pub open spec fn padded_len(n: nat) -> nat {
    n + (16 - n % 16) as nat
}

/// What AES-128 makes of a message under a key, block by block, with PKCS #7 padding.
pub uninterp spec fn aes_sealed(key: Seq<u8>, message: Seq<u8>) -> Seq<u8>;

/// What AES-128 makes of sealed bytes under a key: the message, or what is wrong with them.
pub uninterp spec fn aes_opened(key: Seq<u8>, bytes: Seq<u8>) -> Result<Seq<u8>, Seq<char>>;

/// `ecb::Encryptor::<aes::Aes128>::encrypt_padded_mut` with `Pkcs7`: seals the first `len` bytes
/// of a buffer that has room for the padding. What comes out fills whole blocks and opens again
/// under the same key.
#[verifier::external_body]
pub(crate) fn aes_encrypt(key: &[u8], buf: Vec<u8>, len: usize) -> (r: Vec<u8>)
    requires
        key@.len() == 16,
        len <= buf@.len(),
        padded_len(len as nat) <= buf@.len(),
    ensures
        r@ == aes_sealed(key@, buf@.take(len as int)),
        r@.len() == padded_len(len as nat),
        aes_opened(key@, r@) is Ok,
        aes_opened(key@, r@)->Ok_0 == buf@.take(len as int),
{
    let mut buf = buf;
    let cipher = ecb::Encryptor::<aes::Aes128>::new_from_slice(key).unwrap();
    cipher.encrypt_padded_mut::<Pkcs7>(&mut buf, len).unwrap().to_vec()
}

/// `ecb::Decryptor::<aes::Aes128>::decrypt_padded_mut` with `Pkcs7`: the message, or the text of
/// the error.
#[verifier::external_body]
pub(crate) fn aes_decrypt(key: &[u8], bytes: &[u8]) -> (r: Result<Vec<u8>, String>)
    requires
        key@.len() == 16,
    ensures
        match r {
            Ok(m) => aes_opened(key@, bytes@) == Ok::<Seq<u8>, Seq<char>>(m@),
            Err(e) => aes_opened(key@, bytes@) == Err::<Seq<u8>, Seq<char>>(e@),
        },
{
    let mut buf = bytes.to_vec();
    let cipher = ecb::Decryptor::<aes::Aes128>::new_from_slice(key).unwrap();
    let out = cipher.decrypt_padded_mut::<Pkcs7>(&mut buf);
    out.map(|m| m.to_vec()).map_err(|e| e.to_string())
}

// ---------------------------------------------------------------------------------------------
// Chance
// ---------------------------------------------------------------------------------------------

/// `rand::thread_rng().next_u32`: some number. Nothing is claimed of it.
#[verifier::external_body]
pub(crate) fn random_u32() -> (r: u32)
{
    rand::thread_rng().next_u32()
}

/// `rand::thread_rng().fill_bytes`: 16 bytes. Nothing else is claimed of them.
#[verifier::external_body]
pub(crate) fn random_key() -> (r: Vec<u8>)
    ensures
        r@.len() == 16,
{
    let mut key = [0u8; 16];
    rand::thread_rng().fill_bytes(&mut key);
    key.to_vec()
}

} // verus!
