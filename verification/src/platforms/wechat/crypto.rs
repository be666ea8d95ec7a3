//! Keys, ciphers and request headers.

use vstd::prelude::*;
use vstd::utf8::encode_utf8;

use crate::codec::{
    aes_decrypt, aes_encrypt, aes_opened, aes_sealed, all_hex, base64_bytes, base64_decode,
    base64_encode, base64_text, hex_bytes, hex_complaint, hex_decode, hex_encode, hex_reads_back,
    hex_text, is_base64_char, is_hex_digit, padded_len, random_key, random_u32,
};
use crate::error::{ErrorV, GatewayError};
use crate::strs::{
    chars_of, concat2, decimal, is_ws, trim, trimmed, trimmed_end, trimmed_start, u64_string,
};

verus! {

// ---------------------------------------------------------------------------------------------
// Keys
// ---------------------------------------------------------------------------------------------

/// Bytes as the characters with these numbers.
pub open spec fn byte_chars(bytes: Seq<u8>) -> Seq<char> {
    bytes.map_values(|b: u8| b as char)
}

/// The bytes of a key, before their number is looked at. `decoded` is what base64 makes of the
/// text. A long text of hexadecimal digits is hexadecimal; what base64 decodes to 32 such digits is
/// hexadecimal, too; and what is no base64 stands for itself.
pub open spec fn key_bytes(raw: Seq<char>, decoded: Result<Seq<u8>, Seq<char>>) -> Result<
    Seq<u8>,
    ErrorV,
> {
    if raw.len() >= 32 && all_hex(raw) {
        if raw.len() % 2 == 0 {
            Ok(hex_bytes(raw))
        } else {
            Err(ErrorV::Other(hex_complaint(raw)))
        }
    } else {
        let d = match decoded {
            Ok(d) => d,
            Err(_) => encode_utf8(raw),
        };
        if d.len() == 32 && all_hex(byte_chars(d)) {
            Ok(hex_bytes(byte_chars(d)))
        } else {
            Ok(d)
        }
    }
}

/// The key that a text stands for, where `decoded` is what base64 makes of the trimmed text.
pub open spec fn key_of(s: Seq<char>, decoded: Result<Seq<u8>, Seq<char>>) -> Result<
    Seq<u8>,
    ErrorV,
> {
    match key_bytes(trimmed(s), decoded) {
        Ok(k) => if k.len() == 16 {
            Ok(k)
        } else {
            Err(ErrorV::Other("AES key must be 16 bytes"@))
        },
        Err(e) => Err(e),
    }
}

fn is_all_hex(v: &Vec<char>) -> (r: bool)
    ensures
        r == all_hex(v@),
{
    let mut i: usize = 0;
    while i < v.len()
        invariant
            i <= v@.len(),
            forall|k: int| 0 <= k < i ==> is_hex_digit(#[trigger] v@[k]),
        decreases v@.len() - i,
    {
        let c: char = v[i];
        if !(('0' <= c && c <= '9') || ('a' <= c && c <= 'f') || ('A' <= c && c <= 'F')) {
            assert(!is_hex_digit(v@[i as int]));
            return false;
        }
        i = i + 1;
    }
    true
}

fn chars_of_bytes(b: &Vec<u8>) -> (r: Vec<char>)
    ensures
        r@ == byte_chars(b@),
{
    let mut out: Vec<char> = Vec::new();
    let mut i: usize = 0;
    while i < b.len()
        invariant
            i <= b@.len(),
            out@ == byte_chars(b@.take(i as int)),
        decreases b@.len() - i,
    {
        out.push(b[i] as char);
        assert(byte_chars(b@.take(i + 1)) =~= byte_chars(b@.take(i as int)).push(
            b@[i as int] as char,
        ));
        i = i + 1;
    }
    assert(b@.take(b@.len() as int) == b@);
    out
}

/// The key that a text stands for, where `decoded` is what base64 makes of the trimmed text.
pub fn key_with(s: &str, decoded: Result<Vec<u8>, String>) -> (r: Result<Vec<u8>, GatewayError>)
    ensures
        key_of(s@, (match decoded {
            Ok(d) => Ok::<Seq<u8>, Seq<char>>(d@),
            Err(e) => Err::<Seq<u8>, Seq<char>>(e@),
        })) == (match r {
            Ok(k) => Ok::<Seq<u8>, ErrorV>(k@),
            Err(e) => Err::<Seq<u8>, ErrorV>(e@),
        }),
{
    let raw: &str = trim(s);
    let v: Vec<char> = chars_of(raw);
    let k: Vec<u8> = if v.len() >= 32 && is_all_hex(&v) {
        match hex_decode(raw) {
            Ok(k) => k,
            Err(e) => {
                return Err(GatewayError::Other(e));
            },
        }
    } else {
        let d: Vec<u8> = match decoded {
            Ok(d) => d,
            Err(_) => raw.as_bytes_vec(),
        };
        let c: Vec<char> = chars_of_bytes(&d);
        if d.len() == 32 && is_all_hex(&c) {
            let t: String = crate::strs::string_of(&c);
            match hex_decode(t.as_str()) {
                Ok(k) => k,
                Err(e) => {
                    return Err(GatewayError::Other(e));
                },
            }
        } else {
            d
        }
    };
    if k.len() == 16 {
        Ok(k)
    } else {
        Err(GatewayError::other("AES key must be 16 bytes"))
    }
}

/// The key that a text stands for.
pub open spec fn key_in(s: Seq<char>) -> Result<Seq<u8>, ErrorV> {
    key_of(s, base64_bytes(trimmed(s)))
}

/// The key that a text stands for. What base64 decodes to 16 bytes stands for these bytes, and 32
/// hexadecimal digits for those that they write.
pub fn parse_aes_key(key_b64: &str) -> (r: Result<Vec<u8>, GatewayError>)
    ensures
        key_in(key_b64@) == (match r {
            Ok(k) => Ok::<Seq<u8>, ErrorV>(k@),
            Err(e) => Err::<Seq<u8>, ErrorV>(e@),
        }),
        spells_its_key(key_b64@),
{
    let decoded: Result<Vec<u8>, String> = base64_decode(trim(key_b64));
    key_with(key_b64, decoded)
}

/// A text that base64 decodes to 16 bytes stands for these bytes, and a text of 32 hexadecimal
/// digits for those that they write.
pub open spec fn spells_its_key(s: Seq<char>) -> bool {
    &&& base64_bytes(trimmed(s)) matches Ok(key) ==> key.len() == 16 ==> key_in(s) == Ok::<
        Seq<u8>,
        ErrorV,
    >(key)
    &&& trimmed(s).len() == 32 && all_hex(trimmed(s)) ==> key_in(s) == Ok::<Seq<u8>, ErrorV>(
        hex_bytes(trimmed(s)),
    )
}

/// A text of 32 hexadecimal digits is a key, whatever base64 makes of it.
pub proof fn hex_digits_are_a_key(s: Seq<char>, decoded: Result<Seq<u8>, Seq<char>>)
    requires
        trimmed(s).len() == 32,
        all_hex(trimmed(s)),
    ensures
        key_of(s, decoded) == Ok::<Seq<u8>, ErrorV>(hex_bytes(trimmed(s))),
{
}

/// A key of 16 bytes in hexadecimal is a key, whatever base64 makes of it.
pub proof fn hex_key_is_a_key(key: Seq<u8>, decoded: Result<Seq<u8>, Seq<char>>)
    requires
        key.len() == 16,
    ensures
        key_of(hex_text(key), decoded) == Ok::<Seq<u8>, ErrorV>(key),
{
    let s = hex_text(key);
    hex_reads_back(key);
    assert(s.len() == 32);
    assert(is_hex_digit(s[0]) && is_hex_digit(s[31]));
    assert(!is_ws(s[0]) && !is_ws(s[31]));
    assert(trimmed_start(s) == s);
    assert(trimmed_end(s) == s);
}

/// Whether a text is a key of 16 bytes in base64: what base64 writes for them.
pub open spec fn is_base64_key(s: Seq<char>, key: Seq<u8>) -> bool {
    &&& key.len() == 16
    &&& base64_bytes(s) == Ok::<Seq<u8>, Seq<char>>(key)
    &&& s.len() == 24
    &&& forall|i: int| 0 <= i < s.len() ==> is_base64_char(#[trigger] s[i])
}

/// A key of 16 bytes in base64 is a key.
pub proof fn base64_key_is_a_key(s: Seq<char>, key: Seq<u8>)
    requires
        is_base64_key(s, key),
    ensures
        key_in(s) == Ok::<Seq<u8>, ErrorV>(key),
{
    assert(is_base64_char(s[0]) && is_base64_char(s[23]));
    assert(!is_ws(s[0]) && !is_ws(s[23]));
    assert(trimmed_start(s) == s);
    assert(trimmed_end(s) == s);
}

/// It does not matter whether a key is written in base64 or in hexadecimal: whatever bytes come in,
/// the same comes of opening them.
pub proof fn spellings_of_a_key_are_interchangeable(s: Seq<char>, key: Seq<u8>, bytes: Seq<u8>)
    requires
        is_base64_key(s, key),
    ensures
        key_in(s) == key_in(hex_text(key)),
        opened_under(s, bytes) == opened_under(hex_text(key), bytes),
{
    base64_key_is_a_key(s, key);
    hex_key_is_a_key(key, base64_bytes(trimmed(hex_text(key))));
}

// ---------------------------------------------------------------------------------------------
// Messages
// ---------------------------------------------------------------------------------------------

/// What comes of opening bytes with a key, where `opened` is what the cipher makes of them.
pub open spec fn open_result(key: Result<Seq<u8>, ErrorV>, opened: Result<Seq<u8>, Seq<char>>) -> Result<
    Seq<u8>,
    ErrorV,
> {
    match key {
        Err(e) => Err(e),
        Ok(_) => match opened {
            Ok(m) => Ok(m),
            Err(e) => Err(ErrorV::Other("AES decrypt: "@ + e)),
        },
    }
}

/// What comes of opening bytes under the key that a text stands for.
pub open spec fn opened_under(s: Seq<char>, bytes: Seq<u8>) -> Result<Seq<u8>, ErrorV> {
    open_result(key_in(s), aes_opened(key_in(s)->Ok_0, bytes))
}

/// The bytes under the key, opened.
pub fn aes_ecb_decrypt(data: &[u8], key_b64: &str) -> (r: Result<Vec<u8>, GatewayError>)
    ensures
        opened_under(key_b64@, data@) == (match r {
            Ok(m) => Ok::<Seq<u8>, ErrorV>(m@),
            Err(e) => Err::<Seq<u8>, ErrorV>(e@),
        }),
        spells_its_key(key_b64@),
{
    let key: Vec<u8> = match parse_aes_key(key_b64) {
        Ok(k) => k,
        Err(e) => {
            return Err(e);
        },
    };
    match aes_decrypt(key.as_slice(), data) {
        Ok(m) => Ok(m),
        Err(e) => Err(GatewayError::Other(concat2("AES decrypt: ", e.as_str()))),
    }
}

/// A copy with room for one more block.
fn with_room(data: &[u8]) -> (r: Vec<u8>)
    ensures
        r@.len() == data@.len() + 16,
        r@.len() <= usize::MAX,
        r@.take(data@.len() as int) == data@,
{
    let mut buf: Vec<u8> = Vec::new();
    let mut i: usize = 0;
    let n: usize = data.len();
    while i < n
        invariant
            i <= n,
            n == data@.len(),
            buf@ == data@.take(i as int),
        decreases n - i,
    {
        buf.push(data[i]);
        assert(data@.take(i + 1) =~= data@.take(i as int).push(data@[i as int]));
        i = i + 1;
    }
    assert(data@.take(n as int) == data@);
    let mut room: usize = 0;
    while room < 16
        invariant
            room <= 16,
            n == data@.len(),
            buf@.len() == n + room,
            buf@.take(n as int) == data@,
        decreases 16 - room,
    {
        let ghost before = buf@;
        buf.push(0);
        assert(buf@.take(n as int) =~= before.take(n as int));
        room = room + 1;
    }
    let total: usize = buf.len();
    assert(total == buf@.len());
    buf
}

/// The bytes sealed under the key. They open again under every text that stands for the same key.
pub fn aes_ecb_encrypt(data: &[u8], key_b64: &str) -> (r: Result<Vec<u8>, GatewayError>)
    ensures
        match key_in(key_b64@) {
            Ok(key) => r matches Ok(out) && out@ == aes_sealed(key, data@) && out@.len()
                == padded_len(data@.len()) && forall|s: Seq<char>|
                key_in(s) == Ok::<Seq<u8>, ErrorV>(key) ==> #[trigger] opened_under(s, out@) == Ok::<
                    Seq<u8>,
                    ErrorV,
                >(data@),
            Err(e) => r matches Err(x) && x@ == e,
        },
        spells_its_key(key_b64@),
{
    let key: Vec<u8> = match parse_aes_key(key_b64) {
        Ok(k) => k,
        Err(e) => {
            return Err(e);
        },
    };
    let buf: Vec<u8> = with_room(data);
    Ok(aes_encrypt(key.as_slice(), buf, data.len()))
}

/// A new key, in base64.
pub fn generate_aes_key_b64() -> (r: String)
    ensures
        exists|key: Seq<u8>|
            r@ == #[trigger] base64_text(key) && is_base64_key(r@, key) && key_in(r@) == Ok::<
                Seq<u8>,
                ErrorV,
            >(key),
{
    let key: Vec<u8> = random_key();
    let r: String = base64_encode(key.as_slice());
    proof {
        assert(r@ == base64_text(key@));
        base64_key_is_a_key(r@, key@);
    }
    r
}

/// A new key, in hexadecimal.
pub fn generate_aes_key_hex() -> (r: String)
    ensures
        exists|key: Seq<u8>|
            key.len() == 16 && r@ == #[trigger] hex_text(key) && key_in(r@) == Ok::<
                Seq<u8>,
                ErrorV,
            >(key),
{
    let key: Vec<u8> = random_key();
    let r: String = hex_encode(key.as_slice());
    proof {
        assert(r@ == hex_text(key@));
        hex_key_is_a_key(key@, base64_bytes(trimmed(r@)));
    }
    r
}

// ---------------------------------------------------------------------------------------------
// Headers
// ---------------------------------------------------------------------------------------------

/// A header of a request.
pub type Header = (String, String);

/// The headers of a request: what it holds, how it is authorised, a number that marks it, and the
/// token, where there is one.
pub open spec fn headers_of(bot_token: Seq<char>, mark: Seq<char>) -> Seq<(Seq<char>, Seq<char>)> {
    let base = seq![
        ("Content-Type"@, "application/json"@),
        ("AuthorizationType"@, "ilink_bot_token"@),
        ("X-WECHAT-UIN"@, mark),
    ];
    if bot_token.len() > 0 {
        base.push(("Authorization"@, "Bearer "@ + bot_token))
    } else {
        base
    }
}

/// The headers of a request that is marked so.
pub fn headers_with(bot_token: &str, mark: String) -> (r: Vec<Header>)
    ensures
        r.deep_view() == headers_of(bot_token@, mark@),
{
    let mut r: Vec<Header> = Vec::new();
    r.push(("Content-Type".to_owned(), "application/json".to_owned()));
    r.push(("AuthorizationType".to_owned(), "ilink_bot_token".to_owned()));
    r.push(("X-WECHAT-UIN".to_owned(), mark));
    if !bot_token.is_empty() {
        r.push(("Authorization".to_owned(), concat2("Bearer ", bot_token)));
    }
    assert(r.deep_view() =~= headers_of(bot_token@, mark@));
    r
}

/// The headers of a request, marked with some number in base64.
pub fn make_headers(bot_token: &str) -> (r: Vec<Header>)
    ensures
        exists|uin: u32|
            r.deep_view() == headers_of(
                bot_token@,
                base64_text(encode_utf8(#[trigger] decimal(uin as nat))),
            ),
{
    let uin: u32 = random_u32();
    let n: String = u64_string(uin as u64);
    let mark: String = base64_encode(n.as_str().as_bytes());
    assert(mark@ == base64_text(encode_utf8(decimal(uin as nat))));
    headers_with(bot_token, mark)
}

/// A key has sixteen bytes. Sixteen bytes in base64 are the key, 32 hexadecimal digits in base64 spell
/// it, and a text that is no base64 stands for its own bytes; what has another number of bytes is no
/// key.
pub proof fn keys_have_sixteen_bytes(s: Seq<char>, decoded: Result<Seq<u8>, Seq<char>>)
    ensures
        key_of(s, decoded) matches Ok(k) ==> k.len() == 16,
        !(trimmed(s).len() >= 32 && all_hex(trimmed(s))) ==> match decoded {
            Ok(d) => if d.len() == 16 {
                key_of(s, decoded) == Ok::<Seq<u8>, ErrorV>(d)
            } else if d.len() != 32 || !all_hex(byte_chars(d)) {
                key_of(s, decoded) is Err
            } else {
                key_of(s, decoded) == Ok::<Seq<u8>, ErrorV>(hex_bytes(byte_chars(d)))
            },
            Err(_) => encode_utf8(trimmed(s)).len() == 16 ==> key_of(s, decoded) == Ok::<
                Seq<u8>,
                ErrorV,
            >(encode_utf8(trimmed(s))),
        },
        trimmed(s).len() >= 32 && trimmed(s).len() != 32 && all_hex(trimmed(s)) ==> key_of(s, decoded)
            is Err,
{
}

/// What the cipher says of bytes that it cannot open is told, and what it opens is handed on.
pub proof fn bytes_are_opened_or_told(s: Seq<char>, bytes: Seq<u8>)
    ensures
        key_in(s) matches Ok(key) ==> match aes_opened(key, bytes) {
            Ok(m) => opened_under(s, bytes) == Ok::<Seq<u8>, ErrorV>(m),
            Err(e) => opened_under(s, bytes) == Err::<Seq<u8>, ErrorV>(
                ErrorV::Other("AES decrypt: "@ + e),
            ),
        },
        key_in(s) matches Err(e) ==> opened_under(s, bytes) == Err::<Seq<u8>, ErrorV>(e),
{
}

} // verus!
