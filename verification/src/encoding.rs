//! Text encodings of the `data-encoding`, `base64` and `uuid` crates, and the
//! facts of them that the library relies on.
use base64::engine::general_purpose::URL_SAFE_NO_PAD;
use base64::Engine;
use data_encoding::BASE32_NOPAD;
use vstd::prelude::*;

verus! {

/// Bit `k` of `data` read as a bit stream, most significant bit of each byte
/// first; 0 past the end.
pub open spec fn stream_bit(data: Seq<u8>, k: int) -> nat {
    if 0 <= k < 8 * data.len() {
        ((data[k / 8] as nat) / vstd::arithmetic::power2::pow2((7 - k % 8) as nat)) % 2
    } else {
        0
    }
}

/// The `width` bits of the stream from bit `start` on, as a number, the
/// first bit most significant.
pub open spec fn stream_group(data: Seq<u8>, start: int, width: nat) -> nat
    decreases width,
{
    if width == 0 {
        0
    } else {
        stream_group(data, start, (width - 1) as nat) * 2 + stream_bit(data, start + width - 1)
    }
}

/// The symbol of value `v < 32` in the RFC 4648 base32 alphabet.
pub open spec fn base32_symbol(v: nat) -> char {
    if v < 26 {
        ((v + 65) as u32) as char
    } else {
        ((v - 26 + 50) as u32) as char
    }
}

/// The symbol of value `v < 64` in the RFC 4648 URL-safe base64 alphabet.
pub open spec fn base64_url_symbol(v: nat) -> char {
    if v < 26 {
        ((v + 65) as u32) as char
    } else if v < 52 {
        ((v - 26 + 97) as u32) as char
    } else if v < 62 {
        ((v - 52 + 48) as u32) as char
    } else if v == 62 {
        '-'
    } else {
        '_'
    }
}

/// RFC 4648 base32 without padding: each 5 bits of the stream, the last
/// group filled with zero bits, as one symbol.
pub open spec fn base32_nopad(data: Seq<u8>) -> Seq<char> {
    Seq::new((8 * data.len() + 4) / 5, |i: int| base32_symbol(stream_group(data, 5 * i, 5)))
}

/// RFC 4648 base64 with the URL-safe alphabet and without padding: each 6
/// bits of the stream, the last group filled with zero bits, as one symbol.
pub open spec fn base64_url_nopad(data: Seq<u8>) -> Seq<char> {
    Seq::new((4 * data.len() + 2) / 3, |i: int| base64_url_symbol(stream_group(data, 6 * i, 6)))
}

/// What `uuid::Uuid::parse_str` gives for `text`, as a 128-bit integer.
pub uninterp spec fn uuid_parse(text: Seq<char>) -> Option<u128>;

/// A symbol of the base32 alphabet.
pub open spec fn is_base32_char(c: char) -> bool {
    ('A' <= c && c <= 'Z') || ('2' <= c && c <= '7')
}

/// A symbol of the URL-safe base64 alphabet.
pub open spec fn is_base64_url_char(c: char) -> bool {
    ('A' <= c && c <= 'Z') || ('a' <= c && c <= 'z') || ('0' <= c && c <= '9') || c == '-' || c
        == '_'
}

/// The lower-case hexadecimal digit for `d < 16`.
pub open spec fn hex_lower_char(d: nat) -> char {
    if d < 10 {
        ((d + 48) as u32) as char
    } else {
        ((d + 87) as u32) as char
    }
}

/// The position among the 32 hex digits of a UUID of the character at `i` in
/// its hyphenated form.
pub open spec fn uuid_nibble_index(i: int) -> int {
    if i < 8 {
        i
    } else if i < 13 {
        i - 1
    } else if i < 18 {
        i - 2
    } else if i < 23 {
        i - 3
    } else {
        i - 4
    }
}

/// The `k`-th hex digit of `id`, the most significant first.
pub open spec fn uuid_nibble(id: u128, k: int) -> nat {
    ((id as nat) / vstd::arithmetic::power2::pow2((124 - 4 * k) as nat)) % 16
}

/// The hyphenated lower-case form of a UUID, `8-4-4-4-12` hex digits, which
/// `uuid::Uuid`'s `Display` writes.
pub open spec fn uuid_hyphenated(id: u128) -> Seq<char> {
    Seq::new(
        36,
        |i: int|
            if i == 8 || i == 13 || i == 18 || i == 23 {
                '-'
            } else {
                hex_lower_char(uuid_nibble(id, uuid_nibble_index(i)))
            },
    )
}

/// `BASE32_NOPAD.encode`: the RFC 4648 base32 text of `data`, without
/// padding, `ceil(8n/5)` symbols of the base32 alphabet.
#[verifier::external_body]
pub fn base32_encode(data: &[u8]) -> (r: String)
    requires
        data@.len() <= usize::MAX / 512,
    ensures
        r@ == base32_nopad(data@),
        r@.len() == (8 * data@.len() + 4) / 5,
        forall|i: int| 0 <= i < r@.len() ==> is_base32_char(#[trigger] r@[i]),
{
    BASE32_NOPAD.encode(data)
}

/// `URL_SAFE_NO_PAD.encode`: the RFC 4648 URL-safe base64 text of `data`,
/// without padding, `ceil(4n/3)` symbols of the URL-safe alphabet.
#[verifier::external_body]
pub fn base64_url_encode(data: &[u8]) -> (r: String)
    requires
        data@.len() <= usize::MAX / 4,
    ensures
        r@ == base64_url_nopad(data@),
        r@.len() == (4 * data@.len() + 2) / 3,
        forall|i: int| 0 <= i < r@.len() ==> is_base64_url_char(#[trigger] r@[i]),
{
    URL_SAFE_NO_PAD.encode(data)
}

/// `Uuid::from_u128(id).to_string()`: the hyphenated lower-case form.
#[verifier::external_body]
pub fn uuid_to_string(id: u128) -> (r: String)
    ensures
        r@ == uuid_hyphenated(id),
{
    uuid::Uuid::from_u128(id).to_string()
}

/// `Uuid::parse_str(text).ok()` as a 128-bit integer; the hyphenated form
/// of a UUID parses back to it.
#[verifier::external_body]
pub fn parse_uuid(text: &str) -> (r: Option<u128>)
    ensures
        r == uuid_parse(text@),
        forall|id: u128| #[trigger] uuid_hyphenated(id) == text@ ==> r == Some(id),
{
    uuid::Uuid::parse_str(text).ok().map(|id| id.as_u128())
}

/// The hyphenated form of a UUID holds only hex digits and hyphens.
pub proof fn lemma_uuid_hyphenated_chars(id: u128)
    ensures
        uuid_hyphenated(id).len() == 36,
        forall|i: int|
            0 <= i < 36 ==> {
                let c = #[trigger] uuid_hyphenated(id)[i];
                c == '-' || ('0' <= c && c <= '9') || ('a' <= c && c <= 'f')
            },
{
    assert forall|i: int| 0 <= i < 36 implies {
        let c = #[trigger] uuid_hyphenated(id)[i];
        c == '-' || ('0' <= c && c <= '9') || ('a' <= c && c <= 'f')
    } by {
        if !(i == 8 || i == 13 || i == 18 || i == 23) {
            let d = uuid_nibble(id, uuid_nibble_index(i));
            assert(d < 16);
        }
    }
}

} // verus!
