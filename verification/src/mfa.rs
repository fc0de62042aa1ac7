//! Time-based one-time passwords (RFC 6238), MFA secrets and recovery codes.
use crate::crypto::{
    aes256gcm_decrypt, aes256gcm_encrypt, aes256gcm_seal, ct_eq_bytes, hmac_sha1, hmac_sha1_tag,
    random_bytes, unix_time_now,
};
use crate::encoding::{
    base32_encode, base32_nopad, base64_url_encode, base64_url_nopad, is_base32_char,
    is_base64_url_char, uuid_hyphenated, uuid_to_string,
};
use crate::error::{ApiError, ApiResult};
use crate::text::{
    all_digits, ascii_lower, ascii_lower_char, ascii_upper, ascii_upper_char, digit_char, digit_of,
    digits_value, is_white_space, lemma_trim_end_lower, lemma_trim_start_lower,
    lemma_white_space_lower, push_char, push_str, to_ascii_upper_char, trim, trim_end, trim_start,
    trim_str,
};
use vstd::prelude::*;

verus! {

/// Seconds per TOTP time step.
pub const TOTP_STEP_SECONDS: u64 = 30;

/// The modulus that leaves six decimal digits.
pub const TOTP_DIGITS: u32 = 1_000_000;

/// Byte `i` of the big-endian encoding of `counter`.
pub open spec fn be_byte(counter: u64, i: int) -> u8 {
    ((counter >> ((56 - 8 * i) as u64)) & 0xff) as u8
}

/// The 8-byte big-endian encoding of `counter`.
pub open spec fn counter_bytes(counter: u64) -> Seq<u8> {
    Seq::new(8, |i: int| be_byte(counter, i))
}

/// RFC 4226 dynamic truncation of a 20-byte HMAC-SHA1 digest, reduced to six
/// decimal digits.
pub open spec fn truncate_digest(d: Seq<u8>) -> nat {
    let offset = (d[19] % 16) as int;
    (((d[offset] % 128) as nat) * 16777216 + (d[offset + 1] as nat) * 65536 + (d[offset
        + 2] as nat) * 256 + (d[offset + 3] as nat)) % 1000000
}

/// The one-time password of `secret` for the time step `counter`.
pub open spec fn totp_value(secret: Seq<u8>, counter: u64) -> nat {
    truncate_digest(hmac_sha1(secret, counter_bytes(counter)))
}

/// The six decimal digits of `v < 1_000_000`, with leading zeros.
pub open spec fn six_digits(v: nat) -> Seq<char> {
    seq![
        digit_char((v / 100000) % 10),
        digit_char((v / 10000) % 10),
        digit_char((v / 1000) % 10),
        digit_char((v / 100) % 10),
        digit_char((v / 10) % 10),
        digit_char(v % 10),
    ]
}

/// A code made of exactly six ASCII digits.
pub open spec fn is_six_digit_code(code: Seq<char>) -> bool {
    code.len() == 6 && all_digits(code)
}

/// The time step of `timestamp` and the two next to it; the earlier one is
/// clamped at zero.
pub open spec fn step_window(timestamp: u64) -> (u64, u64, u64) {
    let c = timestamp / 30;
    (if c > 0 { (c - 1) as u64 } else { 0 }, c, (c + 1) as u64)
}

/// Whether `code` is the six-digit password of `secret` for the time step of
/// `timestamp` or one of the two next to it.
#[verifier::opaque]
pub open spec fn totp_accepts(secret: Seq<u8>, code: Seq<char>, timestamp: u64) -> bool {
    let (a, b, c) = step_window(timestamp);
    &&& is_six_digit_code(code)
    &&& {
        ||| six_digits(totp_value(secret, a)) == code
        ||| six_digits(totp_value(secret, b)) == code
        ||| six_digits(totp_value(secret, c)) == code
    }
}

fn counter_be_bytes(counter: u64) -> (r: Vec<u8>)
    ensures
        r@ == counter_bytes(counter),
{
    let mut v: Vec<u8> = Vec::new();
    let mut i: u64 = 0;
    while i < 8
        invariant
            i <= 8,
            v@.len() == i,
            forall|k: int| 0 <= k < i ==> v@[k] == be_byte(counter, k),
        decreases 8 - i,
    {
        v.push(((counter >> (56 - 8 * i)) & 0xff) as u8);
        i = i + 1;
    }
    assert(v@ =~= counter_bytes(counter));
    v
}

/// The six-digit one-time password of `secret` for the time step `counter`.
pub fn totp_code(secret: &[u8], counter: u64) -> (r: u32)
    ensures
        r == totp_value(secret@, counter),
        r < 1_000_000,
{
    let message = counter_be_bytes(counter);
    let digest = hmac_sha1_tag(secret, message.as_slice());
    let last = digest[19];
    let offset = (last & 0x0f) as usize;
    assert(last & 0x0f == last % 16) by (bit_vector);
    let b0 = digest[offset] as u32;
    let b1 = digest[offset + 1] as u32;
    let b2 = digest[offset + 2] as u32;
    let b3 = digest[offset + 3] as u32;
    let binary = ((b0 & 0x7f) << 24) | (b1 << 16) | (b2 << 8) | b3;
    assert(((b0 & 0x7f) << 24) | (b1 << 16) | (b2 << 8) | b3 == (b0 % 128) * 16777216 + b1 * 65536
        + b2 * 256 + b3) by (bit_vector)
        requires
            b0 < 256,
            b1 < 256,
            b2 < 256,
            b3 < 256,
    ;
    binary % TOTP_DIGITS
}

/// The password `v` written with six digits, as `format!("{:06}", v)`.
pub fn six_digit_string(v: u32) -> (r: String)
    requires
        v < 1_000_000,
    ensures
        r@ == six_digits(v as nat),
{
    let mut r = String::new();
    push_char(&mut r, digit_of(((v / 100000) % 10) as u64));
    push_char(&mut r, digit_of(((v / 10000) % 10) as u64));
    push_char(&mut r, digit_of(((v / 1000) % 10) as u64));
    push_char(&mut r, digit_of(((v / 100) % 10) as u64));
    push_char(&mut r, digit_of(((v / 10) % 10) as u64));
    push_char(&mut r, digit_of((v % 10) as u64));
    assert(r@ =~= six_digits(v as nat));
    r
}

/// Whether `code` consists of exactly six ASCII digits.
pub fn is_six_digit_text(code: &str) -> (b: bool)
    ensures
        b == is_six_digit_code(code@),
{
    if code.unicode_len() != 6 {
        return false;
    }
    let mut i: usize = 0;
    while i < 6
        invariant
            code@.len() == 6,
            i <= 6,
            forall|k: int| 0 <= k < i ==> crate::text::is_ascii_digit(#[trigger] code@[k]),
        decreases 6 - i,
    {
        let c = code.get_char(i);
        if !('0' <= c && c <= '9') {
            return false;
        }
        i = i + 1;
    }
    true
}

fn totp_step_matches(secret: &[u8], code: &str, counter: u64) -> (b: bool)
    ensures
        b == (six_digits(totp_value(secret@, counter)) == code@),
{
    let expected = six_digit_string(totp_code(secret, counter));
    let same = ct_eq_bytes(expected.as_str().as_bytes(), code.as_bytes());
    proof {
        broadcast use vstd::utf8::encode_utf8_decode_utf8;

        if vstd::utf8::encode_utf8(expected@) == vstd::utf8::encode_utf8(code@) {
            assert(vstd::utf8::decode_utf8(vstd::utf8::encode_utf8(expected@)) == expected@);
            assert(vstd::utf8::decode_utf8(vstd::utf8::encode_utf8(code@)) == code@);
        }
    }
    same
}

/// Whether `code` is the password of `secret` at `timestamp`, allowing one
/// time step of clock drift either way; the comparison runs in constant time.
pub fn verify_totp_at(secret: &[u8], code: &str, timestamp: u64) -> (r: bool)
    ensures
        r == totp_accepts(secret@, code@, timestamp),
{
    reveal(totp_accepts);
    if !is_six_digit_text(code) {
        return false;
    }
    let counter = timestamp / TOTP_STEP_SECONDS;
    let previous = if counter > 0 {
        counter - 1
    } else {
        0
    };
    totp_step_matches(secret, code, previous) || totp_step_matches(secret, code, counter)
        || totp_step_matches(secret, code, counter + 1)
}

/// Whether `code` is the password of `secret` now, by the system clock; false
/// when the clock stands before the Unix epoch.
pub fn verify_totp(secret: &[u8], code: &str) -> (r: bool)
    ensures
        r ==> exists|t: u64| totp_accepts(secret@, code@, t),
        !is_six_digit_code(code@) ==> !r,
{
    reveal(totp_accepts);
    match unix_time_now() {
        Some(now) => verify_totp_at(secret, code, now),
        None => false,
    }
}

/// `s` without any occurrence of `c`.
pub open spec fn remove_char(s: Seq<char>, c: char) -> Seq<char>
    decreases s.len(),
{
    if s.len() == 0 {
        s
    } else if s.last() == c {
        remove_char(s.drop_last(), c)
    } else {
        remove_char(s.drop_last(), c).push(s.last())
    }
}

/// A recovery code as the user may type it, reduced to the form that is
/// stored: trimmed, without hyphens, in upper case.
pub open spec fn normalized_recovery_code(code: Seq<char>) -> Seq<char> {
    ascii_upper(remove_char(trim(code), '-'))
}

/// How a recovery code is shown: its first six symbols, a hyphen, the rest.
pub open spec fn recovery_code_text(encoded: Seq<char>) -> Seq<char> {
    encoded.take(6) + seq!['-'] + encoded.skip(6)
}

/// A shown recovery code: six base32 symbols, a hyphen and seven more.
pub open spec fn is_recovery_code(code: Seq<char>) -> bool {
    &&& code.len() == 14
    &&& code[6] == '-'
    &&& forall|i: int| 0 <= i < 14 && i != 6 ==> is_base32_char(#[trigger] code[i])
}

/// The recovery code reduced to its stored form: trimmed, hyphens removed,
/// ASCII letters in upper case.
pub fn normalize_recovery_code(code: &str) -> (r: String)
    ensures
        r@ == normalized_recovery_code(code@),
{
    let t = trim_str(code);
    let n = t.as_str().unicode_len();
    let mut r = String::new();
    let mut i: usize = 0;
    while i < n
        invariant
            n == t@.len(),
            i <= n,
            r@ == ascii_upper(remove_char(t@.take(i as int), '-')),
        decreases n - i,
    {
        let c = t.as_str().get_char(i);
        let ghost before = t@.take(i as int);
        assert(t@.take(i + 1).drop_last() =~= before);
        if c != '-' {
            push_char(&mut r, to_ascii_upper_char(c));
            assert(ascii_upper(remove_char(before, '-').push(c)) =~= ascii_upper(
                remove_char(before, '-'),
            ).push(ascii_upper_char(c)));
        }
        i = i + 1;
    }
    assert(t@.take(n as int) =~= t@);
    r
}

/// The shown form of an encoded recovery code.
fn format_recovery_code(encoded: &str) -> (r: String)
    requires
        encoded@.len() >= 6,
    ensures
        r@ == recovery_code_text(encoded@),
{
    let n = encoded.unicode_len();
    let mut r = crate::text::substring(encoded, 0, 6);
    push_char(&mut r, '-');
    let rest = crate::text::substring(encoded, 6, n);
    push_str(&mut r, rest.as_str());
    assert(encoded@.subrange(0, 6) =~= encoded@.take(6));
    assert(encoded@.subrange(6, n as int) =~= encoded@.skip(6));
    r
}

/// Ten fresh recovery codes, each the base32 encoding of 8 random bytes shown
/// as `XXXXXX-XXXXXXX`.
pub fn generate_recovery_codes() -> (r: Vec<String>)
    ensures
        r@.len() == 10,
        forall|i: int|
            0 <= i < 10 ==> {
                &&& is_recovery_code(#[trigger] r@[i]@)
                &&& exists|b: Seq<u8>|
                    b.len() == 8 && r@[i]@ == recovery_code_text(#[trigger] base32_nopad(b))
            },
{
    let mut codes: Vec<String> = Vec::new();
    let mut k: usize = 0;
    while k < 10
        invariant
            k <= 10,
            codes@.len() == k,
            forall|i: int|
                0 <= i < k ==> {
                    &&& is_recovery_code(#[trigger] codes@[i]@)
                    &&& exists|b: Seq<u8>|
                        b.len() == 8 && codes@[i]@ == recovery_code_text(
                            #[trigger] base32_nopad(b),
                        )
                },
        decreases 10 - k,
    {
        let bytes = random_bytes(8);
        let encoded = base32_encode(bytes.as_slice());
        let code = format_recovery_code(encoded.as_str());
        assert(encoded@.len() == 13);
        assert forall|i: int| 0 <= i < 14 && i != 6 implies is_base32_char(#[trigger] code@[i]) by {
            if i < 6 {
                assert(code@[i] == encoded@[i]);
            } else {
                assert(code@[i] == encoded@[i - 1]);
            }
        }
        codes.push(code);
        k = k + 1;
    }
    codes
}

/// A byte that a URI may carry as it is.
pub open spec fn is_unreserved(b: u8) -> bool {
    ||| (48 <= b && b <= 57)
    ||| (65 <= b && b <= 90)
    ||| (97 <= b && b <= 122)
    ||| b == 45
    ||| b == 46
    ||| b == 95
    ||| b == 126
}

/// The upper-case hexadecimal digit for `d < 16`.
pub open spec fn hex_upper_char(d: nat) -> char {
    if d < 10 {
        ((d + 48) as u32) as char
    } else {
        ((d + 55) as u32) as char
    }
}

/// One byte percent-encoded.
pub open spec fn percent_encode_byte(b: u8) -> Seq<char> {
    if is_unreserved(b) {
        seq![(b as u32) as char]
    } else {
        seq!['%', hex_upper_char((b / 16) as nat), hex_upper_char((b % 16) as nat)]
    }
}

/// Bytes percent-encoded one by one.
pub open spec fn percent_encoded(bytes: Seq<u8>) -> Seq<char>
    decreases bytes.len(),
{
    if bytes.len() == 0 {
        Seq::empty()
    } else {
        percent_encoded(bytes.drop_last()) + percent_encode_byte(bytes.last())
    }
}

fn hex_upper(d: u8) -> (c: char)
    requires
        d < 16,
    ensures
        c == hex_upper_char(d as nat),
{
    if d < 10 {
        (d + 48) as char
    } else {
        (d + 55) as char
    }
}

/// The UTF-8 bytes of `value`, every byte but `A-Z a-z 0-9 - . _ ~` written
/// as `%XX`.
pub fn percent_encode(value: &str) -> (r: String)
    ensures
        r@ == percent_encoded(vstd::utf8::encode_utf8(value@)),
{
    let bytes = value.as_bytes();
    let n = bytes.len();
    let mut r = String::new();
    let mut i: usize = 0;
    while i < n
        invariant
            n == bytes@.len(),
            bytes@ == vstd::utf8::encode_utf8(value@),
            i <= n,
            r@ == percent_encoded(bytes@.take(i as int)),
        decreases n - i,
    {
        let b = bytes[i];
        assert(bytes@.take(i + 1).drop_last() =~= bytes@.take(i as int));
        let ghost before = r@;
        if (48 <= b && b <= 57) || (65 <= b && b <= 90) || (97 <= b && b <= 122) || b == 45 || b
            == 46 || b == 95 || b == 126 {
            push_char(&mut r, b as char);
        } else {
            push_char(&mut r, '%');
            push_char(&mut r, hex_upper(b / 16));
            push_char(&mut r, hex_upper(b % 16));
        }
        assert(r@ =~= before + percent_encode_byte(b));
        i = i + 1;
    }
    assert(bytes@.take(n as int) =~= bytes@);
    r
}

/// 20 fresh random bytes for a TOTP secret.
pub fn generate_secret() -> (r: Vec<u8>)
    ensures
        r@.len() == 20,
{
    random_bytes(20)
}

/// The secret in base32 without padding, as authenticator apps read it.
pub fn encode_secret(secret: &[u8]) -> (r: String)
    requires
        secret@.len() <= usize::MAX / 512,
    ensures
        r@ == base32_nopad(secret@),
{
    base32_encode(secret)
}

/// The issuer shown by authenticator apps.
pub open spec fn issuer_name() -> Seq<char> {
    "SaaS Platform"@
}

/// The `otpauth://` URI that enrolls `secret` for `email` of a tenant.
pub open spec fn provisioning_uri_text(
    secret: Seq<u8>,
    email: Seq<char>,
    tenant_name: Seq<char>,
) -> Seq<char> {
    let issuer = percent_encoded(vstd::utf8::encode_utf8(issuer_name()));
    let account = percent_encoded(vstd::utf8::encode_utf8(tenant_name + ":"@ + email));
    "otpauth://totp/"@ + issuer + ":"@ + account + "?secret="@ + base32_nopad(secret)
        + "&issuer="@ + issuer + "&algorithm=SHA1&digits=6&period=30"@
}

/// The key URI that authenticator apps scan to enroll `secret`.
pub fn provisioning_uri(secret: &[u8], email: &str, tenant_name: &str) -> (r: String)
    requires
        secret@.len() <= usize::MAX / 512,
    ensures
        r@ == provisioning_uri_text(secret@, email@, tenant_name@),
{
    let issuer = percent_encode("SaaS Platform");
    let mut account_text = tenant_name.to_owned();
    push_char(&mut account_text, ':');
    push_str(&mut account_text, email);
    let account = percent_encode(account_text.as_str());
    let mut r = "otpauth://totp/".to_owned();
    push_str(&mut r, issuer.as_str());
    push_char(&mut r, ':');
    push_str(&mut r, account.as_str());
    push_str(&mut r, "?secret=");
    let encoded = encode_secret(secret);
    push_str(&mut r, encoded.as_str());
    push_str(&mut r, "&issuer=");
    push_str(&mut r, issuer.as_str());
    push_str(&mut r, "&algorithm=SHA1&digits=6&period=30");
    assert(account_text@ =~= tenant_name@ + ":"@ + email@) by {
        reveal_strlit(":");
    }
    assert(r@ =~= provisioning_uri_text(secret@, email@, tenant_name@)) by {
        reveal_strlit(":");
    }
    r
}

/// `encrypted` is a 12-byte nonce followed by the AES-256-GCM sealing of
/// `secret` under `key` with that nonce.
pub open spec fn seals_secret(key: Seq<u8>, encrypted: Seq<u8>, secret: Seq<u8>) -> bool {
    encrypted.len() >= 12 && aes256gcm_seal(key, encrypted.take(12), secret) == Some(
        encrypted.skip(12),
    )
}

/// The secret that a nonce-prefixed sealing opens to under `key`, if any.
pub open spec fn opened_secret(key: Seq<u8>, encrypted: Seq<u8>) -> Option<Seq<u8>> {
    if encrypted.len() > 12 {
        crate::crypto::aes256gcm_open(key, encrypted.take(12), encrypted.skip(12))
    } else {
        None
    }
}

pub open spec fn internal_error() -> (u16, Seq<char>, Seq<char>) {
    (500u16, "INTERNAL_SERVER_ERROR"@, "サーバー内部でエラーが発生しました。"@)
}

/// The secret sealed under `key` with a fresh random nonce, the nonce first.
pub fn encrypt_secret(key: &[u8; 32], secret: &[u8]) -> (r: ApiResult<Vec<u8>>)
    ensures
        match r {
            Ok(v) => seals_secret(key@, v@, secret@) && v@.len() == secret@.len() + 28,
            Err(e) => e@ == internal_error() && exists|n: Seq<u8>|
                n.len() == 12 && (#[trigger] aes256gcm_seal(key@, n, secret@)) is None,
        },
{
    let nonce = random_bytes(12);
    match aes256gcm_encrypt(key, nonce.as_slice(), secret) {
        Some(sealed) => {
            let mut result = nonce;
            let mut tail = sealed;
            let ghost nonce_bytes = result@;
            let ghost tail_bytes = tail@;
            result.append(&mut tail);
            assert(result@.take(12) =~= nonce_bytes);
            assert(result@.skip(12) =~= tail_bytes);
            Ok(result)
        },
        None => Err(ApiError::internal()),
    }
}

/// The secret opened from a nonce-prefixed sealing, or an internal error when
/// the input is too short or does not authenticate. What `encrypt_secret`
/// sealed under the same key opens to its secret.
pub fn decrypt_secret(key: &[u8; 32], encrypted: &[u8]) -> (r: ApiResult<Vec<u8>>)
    ensures
        match r {
            Ok(v) => opened_secret(key@, encrypted@) == Some(v@),
            Err(e) => e@ == internal_error() && opened_secret(key@, encrypted@) is None,
        },
        forall|s: Seq<u8>|
            #[trigger] seals_secret(key@, encrypted@, s) && encrypted@.len() > 12 ==> (r matches Ok(v) && v@ == s),
{
    let n = encrypted.len();
    if n <= 12 {
        return Err(ApiError::internal());
    }
    let nonce = crate::text::bytes_range(encrypted, 0, 12);
    let sealed = crate::text::bytes_range(encrypted, 12, n);
    assert(nonce@ =~= encrypted@.take(12));
    assert(sealed@ =~= encrypted@.skip(12));
    match aes256gcm_decrypt(key, nonce.as_slice(), sealed.as_slice()) {
        Some(v) => Ok(v),
        None => Err(ApiError::internal()),
    }
}

/// A fresh MFA challenge token: the tenant's UUID, a dot, and 32 random bytes
/// in URL-safe base64.
pub fn challenge_token(tenant_id: u128) -> (r: String)
    ensures
        exists|b: Seq<u8>|
            b.len() == 32 && r@ == uuid_hyphenated(tenant_id) + seq!['.'] + #[trigger] base64_url_nopad(
                b,
            ),
        r@.len() == 80,
        forall|i: int| 37 <= i < 80 ==> is_base64_url_char(#[trigger] r@[i]),
{
    let bytes = random_bytes(32);
    let encoded = base64_url_encode(bytes.as_slice());
    let mut r = uuid_to_string(tenant_id);
    push_char(&mut r, '.');
    push_str(&mut r, encoded.as_str());
    proof {
        crate::encoding::lemma_uuid_hyphenated_chars(tenant_id);
        assert forall|i: int| 37 <= i < 80 implies is_base64_url_char(#[trigger] r@[i]) by {
            assert(r@[i] == encoded@[i - 37]);
        }
    }
    r
}

/// Six digits written by `six_digits` read back to the number, and they make
/// a six-digit code.
pub proof fn lemma_six_digits_value(v: nat)
    requires
        v < 1000000,
    ensures
        digits_value(six_digits(v)) == v,
        is_six_digit_code(six_digits(v)),
{
    let s = six_digits(v);
    reveal_with_fuel(digits_value, 7);
    assert(s.drop_last().drop_last().drop_last().drop_last().drop_last().drop_last() =~= Seq::<
        char,
    >::empty());
    let d0 = (v / 100000) % 10;
    let d1 = (v / 10000) % 10;
    let d2 = (v / 1000) % 10;
    let d3 = (v / 100) % 10;
    let d4 = (v / 10) % 10;
    let d5 = v % 10;
    assert(s[0] as u32 == d0 + 48);
    assert(s[1] as u32 == d1 + 48);
    assert(s[2] as u32 == d2 + 48);
    assert(s[3] as u32 == d3 + 48);
    assert(s[4] as u32 == d4 + 48);
    assert(s[5] as u32 == d5 + 48);
    assert(((((d0 * 10 + d1) * 10 + d2) * 10 + d3) * 10 + d4) * 10 + d5 == v) by (nonlinear_arith)
        requires
            v < 1000000,
            d0 == (v / 100000) % 10,
            d1 == (v / 10000) % 10,
            d2 == (v / 1000) % 10,
            d3 == (v / 100) % 10,
            d4 == (v / 10) % 10,
            d5 == v % 10,
    ;
    assert(s.drop_last().last() == s[4]);
    assert(s.drop_last().drop_last().last() == s[3]);
    assert(s.drop_last().drop_last().drop_last().last() == s[2]);
    assert(s.drop_last().drop_last().drop_last().drop_last().last() == s[1]);
    assert(s.drop_last().drop_last().drop_last().drop_last().drop_last().last() == s[0]);
}

/// A six-digit code is the six digits of its value.
pub proof fn lemma_six_digit_code_value(code: Seq<char>)
    requires
        is_six_digit_code(code),
    ensures
        digits_value(code) < 1000000,
        six_digits(digits_value(code)) == code,
{
    reveal_with_fuel(digits_value, 7);
    assert(code.drop_last().drop_last().drop_last().drop_last().drop_last().drop_last() =~= Seq::<
        char,
    >::empty());
    assert(code.drop_last().last() == code[4]);
    assert(code.drop_last().drop_last().last() == code[3]);
    assert(code.drop_last().drop_last().drop_last().last() == code[2]);
    assert(code.drop_last().drop_last().drop_last().drop_last().last() == code[1]);
    assert(code.drop_last().drop_last().drop_last().drop_last().drop_last().last() == code[0]);
    assert(crate::text::is_ascii_digit(code[0]));
    assert(crate::text::is_ascii_digit(code[1]));
    assert(crate::text::is_ascii_digit(code[2]));
    assert(crate::text::is_ascii_digit(code[3]));
    assert(crate::text::is_ascii_digit(code[4]));
    assert(crate::text::is_ascii_digit(code[5]));
    let c0 = ((code[0] as u32) - 48) as nat;
    let c1 = ((code[1] as u32) - 48) as nat;
    let c2 = ((code[2] as u32) - 48) as nat;
    let c3 = ((code[3] as u32) - 48) as nat;
    let c4 = ((code[4] as u32) - 48) as nat;
    let c5 = ((code[5] as u32) - 48) as nat;
    let v = digits_value(code);
    assert(v == ((((c0 * 10 + c1) * 10 + c2) * 10 + c3) * 10 + c4) * 10 + c5);
    assert(v < 1000000 && (v / 100000) % 10 == c0 && (v / 10000) % 10 == c1 && (v / 1000) % 10
        == c2 && (v / 100) % 10 == c3 && (v / 10) % 10 == c4 && v % 10 == c5) by (nonlinear_arith)
        requires
            v == ((((c0 * 10 + c1) * 10 + c2) * 10 + c3) * 10 + c4) * 10 + c5,
            c0 < 10,
            c1 < 10,
            c2 < 10,
            c3 < 10,
            c4 < 10,
            c5 < 10,
    ;
    assert(six_digits(v) =~= code);
}

/// For a six-digit code and a password below a million, the code is the
/// password's six digits exactly when its value is the password.
pub proof fn lemma_six_digits_iff_value(code: Seq<char>, v: nat)
    requires
        is_six_digit_code(code),
        v < 1000000,
    ensures
        (six_digits(v) == code) == (v == digits_value(code)),
{
    lemma_six_digits_value(v);
    lemma_six_digit_code_value(code);
}

/// The password of the current time step is accepted at that time, one step
/// later and one step earlier; a code that is not six digits never is.
pub proof fn lemma_totp_window(secret: Seq<u8>, code: Seq<char>, t: u64)
    ensures
        totp_accepts(secret, six_digits(totp_value(secret, t / 30)), t),
        t <= u64::MAX - 30 ==> totp_accepts(
            secret,
            six_digits(totp_value(secret, t / 30)),
            (t + 30) as u64,
        ),
        t >= 30 ==> totp_accepts(secret, six_digits(totp_value(secret, t / 30)), (t - 30) as u64),
        !is_six_digit_code(code) ==> !totp_accepts(secret, code, t),
{
    reveal(totp_accepts);
    let v = totp_value(secret, t / 30);
    assert(v < 1000000);
    lemma_six_digits_value(v);
    if t <= u64::MAX - 30 {
        assert(((t + 30) as u64) / 30 == t / 30 + 1);
    }
    if t >= 30 {
        assert(((t - 30) as u64) / 30 == t / 30 - 1);
    }
}

proof fn lemma_remove_char_concat(a: Seq<char>, b: Seq<char>, c: char)
    ensures
        remove_char(a + b, c) == remove_char(a, c) + remove_char(b, c),
    decreases b.len(),
{
    if b.len() == 0 {
        assert(a + b =~= a);
        assert(remove_char(a, c) + remove_char(b, c) =~= remove_char(a, c));
    } else {
        assert((a + b).drop_last() =~= a + b.drop_last());
        lemma_remove_char_concat(a, b.drop_last(), c);
        if b.last() != c {
            assert(remove_char(a, c) + remove_char(b.drop_last(), c).push(b.last()) =~= (remove_char(
                a,
                c,
            ) + remove_char(b.drop_last(), c)).push(b.last()));
        }
    }
}

proof fn lemma_remove_char_absent(s: Seq<char>, c: char)
    requires
        forall|i: int| 0 <= i < s.len() ==> s[i] != c,
    ensures
        remove_char(s, c) == s,
    decreases s.len(),
{
    if s.len() > 0 {
        lemma_remove_char_absent(s.drop_last(), c);
        assert(s.drop_last().push(s.last()) =~= s);
    }
}

/// A shown recovery code normalizes to its base32 encoding, the form that is
/// stored.
pub proof fn lemma_recovery_code_round_trip(encoded: Seq<char>)
    requires
        encoded.len() == 13,
        forall|i: int| 0 <= i < 13 ==> is_base32_char(#[trigger] encoded[i]),
    ensures
        is_recovery_code(recovery_code_text(encoded)),
        normalized_recovery_code(recovery_code_text(encoded)) == encoded,
{
    let shown = recovery_code_text(encoded);
    assert(shown[0] == encoded[0]);
    assert(shown.last() == encoded[12]);
    assert(trim_start(shown) == shown);
    assert(trim_end(shown) == shown);
    assert forall|i: int| 0 <= i < 14 && i != 6 implies is_base32_char(#[trigger] shown[i]) by {
        if i < 6 {
            assert(shown[i] == encoded[i]);
        } else {
            assert(shown[i] == encoded[i - 1]);
        }
    }
    lemma_remove_char_concat(encoded.take(6) + seq!['-'], encoded.skip(6), '-');
    lemma_remove_char_concat(encoded.take(6), seq!['-'], '-');
    lemma_remove_char_absent(encoded.take(6), '-');
    lemma_remove_char_absent(encoded.skip(6), '-');
    assert(seq!['-'].drop_last() =~= Seq::<char>::empty());
    assert(remove_char(Seq::<char>::empty(), '-') == Seq::<char>::empty());
    assert(seq!['-'].last() == '-');
    assert(remove_char(seq!['-'], '-') =~= Seq::<char>::empty());
    assert(encoded.take(6) + encoded.skip(6) =~= encoded);
    assert(remove_char(shown, '-') =~= encoded);
    assert(ascii_upper(encoded) =~= encoded);
}

proof fn lemma_remove_char_lower(s: Seq<char>)
    ensures
        remove_char(ascii_lower(s), '-') == ascii_lower(remove_char(s, '-')),
    decreases s.len(),
{
    if s.len() > 0 {
        lemma_white_space_lower(s.last());
        assert(ascii_lower(s).drop_last() =~= ascii_lower(s.drop_last()));
        lemma_remove_char_lower(s.drop_last());
        if s.last() != '-' {
            assert(ascii_lower(remove_char(s.drop_last(), '-').push(s.last())) =~= ascii_lower(
                remove_char(s.drop_last(), '-'),
            ).push(ascii_lower_char(s.last())));
        }
    }
}

/// Recovery codes are compared without regard to the case of their letters.
pub proof fn lemma_recovery_code_case_insensitive(code: Seq<char>)
    ensures
        normalized_recovery_code(ascii_lower(code)) == normalized_recovery_code(code),
{
    lemma_trim_start_lower(code);
    lemma_trim_end_lower(trim_start(code));
    lemma_remove_char_lower(trim(code));
    let r = remove_char(trim(code), '-');
    assert forall|i: int| 0 <= i < r.len() implies ascii_upper(ascii_lower(r))[i] == ascii_upper(
        r,
    )[i] by {
        lemma_white_space_lower(r[i]);
    }
    assert(ascii_upper(ascii_lower(r)) =~= ascii_upper(r));
}

} // verus!
