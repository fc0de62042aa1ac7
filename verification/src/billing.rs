//! Subscription billing: the rules around Stripe Checkout, the customer
//! portal and Stripe's webhooks.
use crate::crypto::{hmac_sha256, hmac_sha256_verify, unix_time_now};
use crate::auth::CurrentUser;
use crate::encoding::{parse_uuid, uuid_parse};
use crate::error::{ApiError, ApiResult};
use crate::stripe::StripeClient;
use crate::text::{
    decimal, decimal_string, find_char_from, parse_u64, parse_u64_str, segments, split_once,
    split_once_str, str_eq, substring,
};
use vstd::prelude::*;

verus! {

/// Webhooks signed more than this many seconds before or after now are
/// refused.
pub const WEBHOOK_TOLERANCE_SECONDS: u64 = 300;

/// The value of an ASCII hexadecimal digit byte (either case).
pub open spec fn hex_digit_value(b: u8) -> Option<nat> {
    if 48 <= b && b <= 57 {
        Some((b - 48) as nat)
    } else if 97 <= b && b <= 102 {
        Some((b - 87) as nat)
    } else if 65 <= b && b <= 70 {
        Some((b - 55) as nat)
    } else {
        None
    }
}

/// Two bytes read as `u8::from_str_radix(_, 16)` reads them: two hex digits,
/// or `+` and one hex digit.
pub open spec fn hex_pair_value(b0: u8, b1: u8) -> Option<u8> {
    if b0 == 43 {
        match hex_digit_value(b1) {
            Some(v) => Some(v as u8),
            None => None,
        }
    } else {
        match (hex_digit_value(b0), hex_digit_value(b1)) {
            (Some(h), Some(l)) => Some((h * 16 + l) as u8),
            _ => None,
        }
    }
}

/// Bytes read two at a time as hexadecimal pairs.
pub open spec fn decode_hex_pairs(b: Seq<u8>) -> Option<Seq<u8>>
    decreases b.len(),
{
    if b.len() < 2 {
        Some(Seq::empty())
    } else {
        match hex_pair_value(b[0], b[1]) {
            Some(v) => match decode_hex_pairs(b.skip(2)) {
                Some(rest) => Some(seq![v] + rest),
                None => None,
            },
            None => None,
        }
    }
}

/// The bytes that a hexadecimal text of even length denotes.
pub open spec fn decoded_hex(text: Seq<u8>) -> Option<Seq<u8>> {
    if text.len() % 2 != 0 {
        None
    } else {
        decode_hex_pairs(text)
    }
}

fn hex_digit(b: u8) -> (r: Option<u8>)
    ensures
        match r {
            Some(v) => hex_digit_value(b) == Some(v as nat),
            None => hex_digit_value(b) is None,
        },
{
    if 48 <= b && b <= 57 {
        Some(b - 48)
    } else if 97 <= b && b <= 102 {
        Some(b - 87)
    } else if 65 <= b && b <= 70 {
        Some(b - 55)
    } else {
        None
    }
}

fn hex_pair(b0: u8, b1: u8) -> (r: Option<u8>)
    ensures
        r == hex_pair_value(b0, b1),
{
    if b0 == 43 {
        return hex_digit(b1);
    }
    match (hex_digit(b0), hex_digit(b1)) {
        (Some(h), Some(l)) => Some(h * 16 + l),
        _ => None,
    }
}

/// The bytes that an even-length hexadecimal text denotes; `None` for odd
/// length or any pair that `u8::from_str_radix(_, 16)` refuses.
pub fn decode_hex(value: &str) -> (r: Option<Vec<u8>>)
    ensures
        crate::crypto::bytes_view(r) == decoded_hex(vstd::utf8::encode_utf8(value@)),
{
    let text = value.as_bytes();
    let n = text.len();
    if n % 2 != 0 {
        return None;
    }
    let mut out: Vec<u8> = Vec::new();
    let mut i: usize = 0;
    assert(text@.skip(0) =~= text@);
    while i < n
        invariant
            n == text@.len(),
            text@ == vstd::utf8::encode_utf8(value@),
            n % 2 == 0,
            i <= n,
            i % 2 == 0,
            decode_hex_pairs(text@) == match decode_hex_pairs(text@.skip(i as int)) {
                Some(rest) => Some(out@ + rest),
                None => None::<Seq<u8>>,
            },
        decreases n - i,
    {
        let ghost rest = text@.skip(i as int);
        assert(n - i >= 2);
        assert(rest.len() >= 2);
        assert(rest[0] == text@[i as int] && rest[1] == text@[i + 1]);
        assert(rest.skip(2) =~= text@.skip(i + 2));
        match hex_pair(text[i], text[i + 1]) {
            Some(v) => {
                let ghost before = out@;
                out.push(v);
                proof {
                    match decode_hex_pairs(text@.skip(i + 2)) {
                        Some(tail) => {
                            assert(before + (seq![v] + tail) =~= out@ + tail);
                        },
                        None => {},
                    }
                }
            },
            None => {
                assert(decode_hex_pairs(rest) is None);
                return None;
            },
        }
        i = i + 2;
    }
    assert(text@.skip(n as int) =~= Seq::<u8>::empty());
    assert(out@ + Seq::<u8>::empty() =~= out@);
    Some(out)
}

/// The timestamp of a `Stripe-Signature` header's parts: the value of the
/// last `t=` part read as a `u64`, `None` if that fails or there is none.
pub open spec fn header_timestamp(parts: Seq<Seq<char>>, acc: Option<u64>) -> Option<u64>
    decreases parts.len(),
{
    if parts.len() == 0 {
        acc
    } else {
        let next = match split_once(parts[0], '=') {
            Some((k, v)) => if k == "t"@ {
                parse_u64(v)
            } else {
                acc
            },
            None => acc,
        };
        header_timestamp(parts.drop_first(), next)
    }
}

/// The values of a `Stripe-Signature` header's `v1=` parts, in order.
pub open spec fn header_signatures(parts: Seq<Seq<char>>) -> Seq<Seq<char>>
    decreases parts.len(),
{
    if parts.len() == 0 {
        Seq::empty()
    } else {
        let head = match split_once(parts[0], '=') {
            Some((k, v)) => if k == "v1"@ {
                seq![v]
            } else {
                Seq::empty()
            },
            None => Seq::empty(),
        };
        head + header_signatures(parts.drop_first())
    }
}

/// The texts of a vector of strings.
pub open spec fn texts(v: Seq<String>) -> Seq<Seq<char>> {
    v.map_values(|s: String| s@)
}

/// A `Stripe-Signature` header split into its timestamp and its `v1`
/// signatures.
pub fn parse_signature_header(signature: &str) -> (r: (Option<u64>, Vec<String>))
    ensures
        r.0 == header_timestamp(segments(signature@, ','), None),
        texts(r.1@) == header_signatures(segments(signature@, ',')),
{
    let n = signature.unicode_len();
    let mut pos: usize = 0;
    let mut timestamp: Option<u64> = None;
    let mut signatures: Vec<String> = Vec::new();
    assert(signature@.skip(0) =~= signature@);
    assert(texts(signatures@) + header_signatures(segments(signature@, ',')) =~= header_signatures(
        segments(signature@, ','),
    ));
    loop
        invariant
            n == signature@.len(),
            pos <= n,
            header_timestamp(segments(signature@, ','), None) == header_timestamp(
                segments(signature@.skip(pos as int), ','),
                timestamp,
            ),
            header_signatures(segments(signature@, ',')) == texts(signatures@) + header_signatures(
                segments(signature@.skip(pos as int), ','),
            ),
        decreases n - pos,
    {
        let k = find_char_from(signature, ',', pos);
        proof {
            lemma_segments_comma_step(signature@, pos as int, k as int);
        }
        let part = substring(signature, pos, k);
        let ghost parts = segments(signature@.skip(pos as int), ',');
        let ghost old_sigs = texts(signatures@);
        let ghost old_ts = timestamp;
        assert(parts[0] == part@);
        proof {
            reveal_strlit("t");
            reveal_strlit("v1");
        }
        match split_once_str(part.as_str(), '=') {
            Some((key, value)) => {
                if str_eq(key.as_str(), "t") {
                    timestamp = parse_u64_str(value.as_str());
                    assert("t"@.len() == 1 && "v1"@.len() == 2);
                    assert(key@ != "v1"@);
                    assert(header_signatures(parts) == Seq::<Seq<char>>::empty() + header_signatures(
                        parts.drop_first(),
                    ));
                    assert(header_timestamp(parts, old_ts) == header_timestamp(
                        parts.drop_first(),
                        timestamp,
                    ));
                } else if str_eq(key.as_str(), "v1") {
                    signatures.push(value);
                    assert(texts(signatures@) =~= old_sigs + seq![value@]);
                    assert(header_signatures(parts) == seq![value@] + header_signatures(
                        parts.drop_first(),
                    ));
                    assert(header_timestamp(parts, old_ts) == header_timestamp(
                        parts.drop_first(),
                        timestamp,
                    ));
                } else {
                    assert(header_signatures(parts) == Seq::<Seq<char>>::empty() + header_signatures(
                        parts.drop_first(),
                    ));
                    assert(header_timestamp(parts, old_ts) == header_timestamp(
                        parts.drop_first(),
                        timestamp,
                    ));
                }
            },
            None => {
                assert(header_signatures(parts) == Seq::<Seq<char>>::empty() + header_signatures(
                    parts.drop_first(),
                ));
                assert(header_timestamp(parts, old_ts) == header_timestamp(
                    parts.drop_first(),
                    timestamp,
                ));
            },
        }
        assert(texts(signatures@) + header_signatures(parts.drop_first()) =~= old_sigs
            + header_signatures(parts));
        if k == n {
            assert(parts.drop_first() =~= Seq::<Seq<char>>::empty());
            assert(texts(signatures@) + Seq::<Seq<char>>::empty() =~= texts(signatures@));
            return (timestamp, signatures);
        }
        pos = k + 1;
    }
}

proof fn lemma_segments_comma_step(s: Seq<char>, pos: int, k: int)
    requires
        0 <= pos <= k <= s.len(),
        k - pos == crate::text::first_pos(s.skip(pos), ','),
    ensures
        segments(s.skip(pos), ',')[0] == s.subrange(pos, k),
        segments(s.skip(pos), ',').len() >= 1,
        k < s.len() ==> segments(s.skip(pos), ',').drop_first() == segments(s.skip(k + 1), ','),
        k == s.len() ==> segments(s.skip(pos), ',').len() == 1,
{
    let t = s.skip(pos);
    crate::text::lemma_first_pos(t, ',');
    assert(t.take(k - pos) =~= s.subrange(pos, k));
    if k < s.len() {
        assert(t.skip(k - pos + 1) =~= s.skip(k + 1));
        assert((seq![t.take(k - pos)] + segments(t.skip(k - pos + 1), ',')).drop_first() =~= segments(
            t.skip(k - pos + 1),
            ',',
        ));
    } else {
        assert(t =~= s.subrange(pos, k));
    }
}

/// The bytes that the webhook signature covers: the timestamp in decimal, a
/// dot, and the raw body.
pub open spec fn webhook_payload(timestamp: u64, body: Seq<u8>) -> Seq<u8> {
    vstd::utf8::encode_utf8(decimal(timestamp as nat)) + seq![46u8] + body
}

/// A `v1` signature that is the hexadecimal HMAC-SHA256 tag of the payload
/// under the endpoint's secret.
pub open spec fn signature_matches(secret: Seq<char>, signature: Seq<char>, payload: Seq<u8>) -> bool {
    decoded_hex(vstd::utf8::encode_utf8(signature)) == Some(
        hmac_sha256(vstd::utf8::encode_utf8(secret), payload),
    )
}

/// A `v1` signature that decodes to a 32-byte tag, the size of an
/// HMAC-SHA256 tag, equal to the tag of the payload.
pub open spec fn full_tag_matches(secret: Seq<char>, signature: Seq<char>, payload: Seq<u8>) -> bool {
    &&& decoded_hex(vstd::utf8::encode_utf8(signature)) matches Some(t)
    &&& t.len() == 32
    &&& t == hmac_sha256(vstd::utf8::encode_utf8(secret), payload)
}

/// Some `v1` signature decodes to a matching 32-byte tag.
pub open spec fn some_full_tag_matches(
    secret: Seq<char>,
    signatures: Seq<Seq<char>>,
    payload: Seq<u8>,
) -> bool {
    exists|i: int|
        0 <= i < signatures.len() && #[trigger] full_tag_matches(secret, signatures[i], payload)
}

/// The header carries a timestamp within the tolerance of `now` and a `v1`
/// signature that decodes to the payload's 32-byte tag.
pub open spec fn webhook_tag_valid(secret: Seq<char>, header: Seq<char>, body: Seq<u8>, now: u64) -> bool {
    let parts = segments(header, ',');
    match header_timestamp(parts, None) {
        None => false,
        Some(ts) => abs_diff(now, ts) <= 300 && some_full_tag_matches(
            secret,
            header_signatures(parts),
            webhook_payload(ts, body),
        ),
    }
}

/// Some `v1` signature matches.
pub open spec fn some_signature_matches(
    secret: Seq<char>,
    signatures: Seq<Seq<char>>,
    payload: Seq<u8>,
) -> bool {
    exists|i: int|
        0 <= i < signatures.len() && #[trigger] signature_matches(secret, signatures[i], payload)
}

/// The distance between two times.
pub open spec fn abs_diff(a: u64, b: u64) -> nat {
    if a >= b {
        (a - b) as nat
    } else {
        (b - a) as nat
    }
}

/// Whether a webhook's `Stripe-Signature` header vouches for `body` at time
/// `now`: it has a timestamp within the tolerance of `now`, and one of its
/// `v1` signatures is the HMAC-SHA256 tag of the signed payload.
pub open spec fn webhook_signature_valid(secret: Seq<char>, header: Seq<char>, body: Seq<u8>, now: u64) -> bool {
    let parts = segments(header, ',');
    match header_timestamp(parts, None) {
        None => false,
        Some(ts) => abs_diff(now, ts) <= 300 && some_signature_matches(
            secret,
            header_signatures(parts),
            webhook_payload(ts, body),
        ),
    }
}

pub open spec fn invalid_webhook_error() -> (u16, Seq<char>, Seq<char>) {
    (400u16, "INVALID_STRIPE_WEBHOOK"@, "Stripe Webhookの検証に失敗しました。"@)
}

/// The answer to a webhook that fails verification or does not parse.
pub fn invalid_webhook() -> (e: ApiError)
    ensures
        e@ == invalid_webhook_error(),
{
    ApiError::bad_request("INVALID_STRIPE_WEBHOOK", "Stripe Webhookの検証に失敗しました。")
}

fn signed_payload(timestamp: u64, body: &[u8]) -> (r: Vec<u8>)
    ensures
        r@ == webhook_payload(timestamp, body@),
{
    let text = decimal_string(timestamp);
    let prefix = text.as_str().as_bytes();
    let mut r = crate::text::bytes_range(prefix, 0, prefix.len());
    assert(prefix@.subrange(0, prefix@.len() as int) =~= prefix@);
    r.push(46u8);
    let n = body.len();
    let mut i: usize = 0;
    let ghost head = r@;
    while i < n
        invariant
            n == body@.len(),
            i <= n,
            r@ == head + body@.take(i as int),
        decreases n - i,
    {
        r.push(body[i]);
        assert(body@.take(i + 1) =~= body@.take(i as int).push(body@[i as int]));
        i = i + 1;
    }
    assert(body@.take(n as int) =~= body@);
    r
}

fn check_signatures(secret: &str, signatures: &Vec<String>, payload: &[u8]) -> (r: bool)
    ensures
        r == some_signature_matches(secret@, texts(signatures@), payload@),
        r ==> some_full_tag_matches(secret@, texts(signatures@), payload@),
{
    let key = secret.as_bytes();
    let n = signatures.len();
    let mut i: usize = 0;
    while i < n
        invariant
            n == signatures@.len(),
            key@ == vstd::utf8::encode_utf8(secret@),
            i <= n,
            forall|k: int|
                0 <= k < i ==> !signature_matches(secret@, #[trigger] texts(signatures@)[k], payload@),
        decreases n - i,
    {
        let candidate = &signatures[i];
        assert(texts(signatures@)[i as int] == candidate@);
        match decode_hex(candidate.as_str()) {
            Some(expected) => {
                if hmac_sha256_verify(key, payload, expected.as_slice()) {
                    assert(signature_matches(secret@, texts(signatures@)[i as int], payload@));
                    assert(full_tag_matches(secret@, texts(signatures@)[i as int], payload@));
                    return true;
                }
            },
            None => {},
        }
        i = i + 1;
    }
    false
}

/// `Ok` exactly when the header vouches for the body at `now`; otherwise
/// `INVALID_STRIPE_WEBHOOK`.
pub fn verify_webhook_signature_at(secret: &str, signature: &str, body: &[u8], now: u64) -> (r:
    ApiResult<()>)
    ensures
        r is Ok == webhook_signature_valid(secret@, signature@, body@, now),
        r matches Err(e) ==> e@ == invalid_webhook_error(),
        r is Ok ==> webhook_tag_valid(secret@, signature@, body@, now),
{
    let (timestamp, signatures) = parse_signature_header(signature);
    let timestamp = match timestamp {
        Some(t) => t,
        None => {
            return Err(invalid_webhook());
        },
    };
    check_parsed_signature(secret, timestamp, &signatures, body, now)
}

fn check_parsed_signature(
    secret: &str,
    timestamp: u64,
    signatures: &Vec<String>,
    body: &[u8],
    now: u64,
) -> (r: ApiResult<()>)
    ensures
        r is Ok == (abs_diff(now, timestamp) <= 300 && some_signature_matches(
            secret@,
            texts(signatures@),
            webhook_payload(timestamp, body@),
        )),
        r matches Err(e) ==> e@ == invalid_webhook_error(),
        r is Ok ==> some_full_tag_matches(secret@, texts(signatures@), webhook_payload(timestamp, body@)),
{
    let diff = if now >= timestamp {
        now - timestamp
    } else {
        timestamp - now
    };
    if diff > WEBHOOK_TOLERANCE_SECONDS {
        return Err(invalid_webhook());
    }
    let payload = signed_payload(timestamp, body);
    if check_signatures(secret, signatures, payload.as_slice()) {
        Ok(())
    } else {
        Err(invalid_webhook())
    }
}

/// Verification of a webhook against the system clock: `INVALID_STRIPE_WEBHOOK`
/// when the header has no timestamp, an internal error when the clock stands
/// before the epoch, else as `verify_webhook_signature_at` at the current
/// time.
pub fn verify_webhook_signature(secret: &str, signature: &str, body: &[u8]) -> (r: ApiResult<()>)
    ensures
        r is Ok ==> exists|now: u64| webhook_signature_valid(secret@, signature@, body@, now),
        r is Ok ==> exists|now: u64| webhook_tag_valid(secret@, signature@, body@, now),
        header_timestamp(segments(signature@, ','), None) is None ==> (r matches Err(e) && e@
            == invalid_webhook_error()),
        r matches Err(e) ==> e@ == invalid_webhook_error() || e@ == crate::mfa::internal_error(),
{
    let (timestamp, signatures) = parse_signature_header(signature);
    let timestamp = match timestamp {
        Some(t) => t,
        None => {
            return Err(invalid_webhook());
        },
    };
    let now = match unix_time_now() {
        Some(now) => now,
        None => {
            return Err(ApiError::internal());
        },
    };
    let r = check_parsed_signature(secret, timestamp, &signatures, body, now);
    proof {
        if r is Ok {
            assert(webhook_signature_valid(secret@, signature@, body@, now));
            assert(webhook_tag_valid(secret@, signature@, body@, now));
        }
    }
    r
}

/// The lower-case hexadecimal text of `bytes`, two digits per byte, as
/// `format!("{byte:02x}")` writes each.
pub open spec fn hex_lower_text(bytes: Seq<u8>) -> Seq<char> {
    Seq::new(
        2 * bytes.len(),
        |i: int|
            crate::encoding::hex_lower_char(
                if i % 2 == 0 {
                    (bytes[i / 2] / 16) as nat
                } else {
                    (bytes[i / 2] % 16) as nat
                },
            ),
    )
}

proof fn lemma_hex_lower_text_ascii(bytes: Seq<u8>)
    ensures
        vstd::utf8::is_ascii_chars(hex_lower_text(bytes)),
        vstd::utf8::encode_utf8(hex_lower_text(bytes)) =~= hex_lower_text(bytes).map_values(
            |c: char| c as u8,
        ),
{
    let t = hex_lower_text(bytes);
    assert(vstd::utf8::is_ascii_chars(t));
    vstd::utf8::is_ascii_chars_encode_utf8(t);
}

proof fn lemma_decode_hex_lower(bytes: Seq<u8>)
    ensures
        decode_hex_pairs(hex_lower_text(bytes).map_values(|c: char| c as u8)) == Some(bytes),
    decreases bytes.len(),
{
    let b = hex_lower_text(bytes).map_values(|c: char| c as u8);
    if bytes.len() == 0 {
        assert(bytes =~= Seq::<u8>::empty());
    } else {
        let hi = (bytes[0] / 16) as nat;
        let lo = (bytes[0] % 16) as nat;
        assert(b[0] == crate::encoding::hex_lower_char(hi) as u8);
        assert(b[1] == crate::encoding::hex_lower_char(lo) as u8);
        assert(hex_digit_value(b[0]) == Some(hi));
        assert(hex_digit_value(b[1]) == Some(lo));
        assert(hex_pair_value(b[0], b[1]) == Some(bytes[0]));
        assert(b.skip(2) =~= hex_lower_text(bytes.drop_first()).map_values(|c: char| c as u8));
        lemma_decode_hex_lower(bytes.drop_first());
        assert(seq![bytes[0]] + bytes.drop_first() =~= bytes);
    }
}

/// Lower-case hexadecimal text decodes back to its bytes.
pub proof fn lemma_hex_round_trip(bytes: Seq<u8>)
    ensures
        decoded_hex(vstd::utf8::encode_utf8(hex_lower_text(bytes))) == Some(bytes),
{
    lemma_hex_lower_text_ascii(bytes);
    lemma_decode_hex_lower(bytes);
}

/// The `Stripe-Signature` header that Stripe sends for `body` signed at
/// `timestamp`: `t=<timestamp>,v1=<hex HMAC-SHA256 tag of the payload>`.
pub open spec fn signed_header(secret: Seq<char>, timestamp: u64, body: Seq<u8>) -> Seq<char> {
    "t="@ + decimal(timestamp as nat) + ",v1="@ + hex_lower_text(
        hmac_sha256(vstd::utf8::encode_utf8(secret), webhook_payload(timestamp, body)),
    )
}

/// A webhook signed with the endpoint's secret is accepted at any time within
/// the tolerance of its timestamp.
pub proof fn lemma_signed_webhook_accepted(secret: Seq<char>, timestamp: u64, body: Seq<u8>, now: u64)
    requires
        abs_diff(now, timestamp) <= 300,
    ensures
        webhook_signature_valid(secret, signed_header(secret, timestamp, body), body, now),
{
    reveal_strlit("t=");
    reveal_strlit(",v1=");
    reveal_strlit("v1=");
    reveal_strlit("t");
    reveal_strlit("v1");
    let d = decimal(timestamp as nat);
    let tag = hmac_sha256(vstd::utf8::encode_utf8(secret), webhook_payload(timestamp, body));
    let hex = hex_lower_text(tag);
    let header = signed_header(secret, timestamp, body);
    crate::text::lemma_decimal_digits(timestamp as nat);
    crate::text::lemma_parse_decimal(timestamp);
    let first = "t="@ + d;
    let second = "v1="@ + hex;
    assert(header =~= first + seq![','] + second);
    // The first part ends at the only comma before the signature.
    assert forall|j: int| 0 <= j < first.len() implies header[j] != ',' by {
        if j >= 2 {
            assert(crate::text::is_ascii_digit(d[j - 2]));
        }
    }
    crate::text::lemma_first_pos_unique(header, ',', first.len() as int);
    assert(header.take(first.len() as int) =~= first);
    assert(header.skip(first.len() + 1int) =~= second);
    assert forall|j: int| 0 <= j < second.len() implies second[j] != ',' by {
        if j >= 3 {
            let k = j - 3;
            assert(second[j] == hex[k]);
        }
    }
    crate::text::lemma_first_pos_unique(second, ',', second.len() as int);
    let parts = segments(header, ',');
    assert(segments(second, ',') == seq![second]);
    assert(parts == seq![first] + segments(second, ','));
    assert(parts =~= seq![first, second]);
    // Each part splits at its first `=`.
    crate::text::lemma_first_pos_unique(first, '=', 1);
    assert(first.take(1) =~= "t"@);
    assert(first.skip(2) =~= d);
    crate::text::lemma_first_pos_unique(second, '=', 2);
    assert(second.take(2) =~= "v1"@);
    assert(second.skip(3) =~= hex);
    assert(parts.drop_first() =~= seq![second]);
    assert(parts.drop_first().drop_first() =~= Seq::<Seq<char>>::empty());
    assert(split_once(first, '=') == Some(("t"@, d)));
    assert(split_once(second, '=') == Some(("v1"@, hex)));
    assert("t"@ != "v1"@);
    let rest = parts.drop_first();
    assert(rest[0] == second);
    assert(header_timestamp(rest.drop_first(), Some(timestamp)) == Some(timestamp));
    assert(header_timestamp(rest, Some(timestamp)) == Some(timestamp));
    assert(parts[0] == first);
    assert(header_timestamp(parts, None) == Some(timestamp));
    assert(header_signatures(rest.drop_first()) =~= Seq::<Seq<char>>::empty());
    assert(header_signatures(rest) =~= seq![hex] + Seq::<Seq<char>>::empty());
    assert(header_signatures(parts) =~= seq![hex]);
    lemma_hex_round_trip(tag);
    assert(vstd::utf8::encode_utf8(hex).len() % 2 == 0) by {
        lemma_hex_lower_text_ascii(tag);
    }
    assert(signature_matches(secret, header_signatures(parts)[0], webhook_payload(timestamp, body)));
}

/// A billing plan as offered to tenants.
pub struct BillingPlanResponse {
    pub id: u128,
    pub code: String,
    pub name: String,
    pub description: String,
    pub currency: String,
    pub unit_amount: i64,
    pub billing_interval: String,
    pub active: bool,
    pub stripe_product_id: String,
    pub stripe_price_id: String,
}

/// A tenant's subscription as the billing page shows it.
pub struct BillingStatusResponse {
    pub plan: Option<BillingPlanResponse>,
    pub status: Option<String>,
    pub current_period_end: Option<String>,
    pub cancel_at_period_end: bool,
    pub unit_amount: Option<i64>,
    pub billing_interval: Option<String>,
    pub stripe_configured: bool,
}

/// The plan to subscribe to.
pub struct CreateCheckoutRequest {
    pub plan_id: u128,
}

/// Where to send the browser: a Stripe Checkout or portal page.
pub struct StripeRedirectResponse {
    pub url: String,
}

/// A tenant's stored subscription.
pub struct SubscriptionRow {
    pub plan_id: u128,
    pub status: String,
    pub current_period_end: Option<String>,
    pub cancel_at_period_end: bool,
    pub unit_amount: Option<i64>,
    pub billing_interval: Option<String>,
}

/// The billing page's status: the subscription's fields and its plan when
/// there is a subscription, else nothing and no cancellation.
pub fn billing_status(
    subscription: Option<SubscriptionRow>,
    plan: Option<BillingPlanResponse>,
    stripe_configured: bool,
) -> (r: BillingStatusResponse)
    ensures
        r.stripe_configured == stripe_configured,
        match subscription {
            Some(s) => {
                &&& r.plan == plan
                &&& r.status == Some(s.status)
                &&& r.current_period_end == s.current_period_end
                &&& r.cancel_at_period_end == s.cancel_at_period_end
                &&& r.unit_amount == s.unit_amount
                &&& r.billing_interval == s.billing_interval
            },
            None => {
                &&& r.plan is None
                &&& r.status is None
                &&& r.current_period_end is None
                &&& !r.cancel_at_period_end
                &&& r.unit_amount is None
                &&& r.billing_interval is None
            },
        },
{
    match subscription {
        Some(s) => BillingStatusResponse {
            plan,
            status: Some(s.status),
            current_period_end: s.current_period_end,
            cancel_at_period_end: s.cancel_at_period_end,
            unit_amount: s.unit_amount,
            billing_interval: s.billing_interval,
            stripe_configured,
        },
        None => BillingStatusResponse {
            plan: None,
            status: None,
            current_period_end: None,
            cancel_at_period_end: false,
            unit_amount: None,
            billing_interval: None,
            stripe_configured,
        },
    }
}

pub open spec fn billing_admin_error() -> (u16, Seq<char>, Seq<char>) {
    (403u16, "FORBIDDEN"@, "契約管理には管理者権限が必要です。"@)
}

/// `FORBIDDEN` unless the user administers the tenant.
pub fn require_tenant_admin(user: &CurrentUser) -> (r: ApiResult<()>)
    ensures
        match r {
            Ok(_) => user.role@ == "admin"@,
            Err(e) => user.role@ != "admin"@ && e@ == billing_admin_error(),
        },
{
    if user.is_admin() {
        Ok(())
    } else {
        Err(ApiError::forbidden("契約管理には管理者権限が必要です。"))
    }
}

pub open spec fn stripe_not_configured_error() -> (u16, Seq<char>, Seq<char>) {
    (503u16, "STRIPE_NOT_CONFIGURED"@, "Stripeが設定されていません。"@)
}

/// `STRIPE_NOT_CONFIGURED` unless a Stripe secret key is set.
pub fn ensure_stripe_configured(stripe: &StripeClient) -> (r: ApiResult<()>)
    ensures
        match r {
            Ok(_) => stripe.secret_key@.len() > 0,
            Err(e) => stripe.secret_key@.len() == 0 && e@ == stripe_not_configured_error(),
        },
{
    if stripe.is_configured() {
        Ok(())
    } else {
        Err(ApiError::service_unavailable("STRIPE_NOT_CONFIGURED", "Stripeが設定されていません。"))
    }
}

pub open spec fn stripe_unavailable_error() -> (u16, Seq<char>, Seq<char>) {
    (
        503u16,
        "STRIPE_UNAVAILABLE"@,
        "Stripeとの連携に失敗しました。時間をおいて再試行してください。"@,
    )
}

/// The answer to a failed Stripe call; the cause is logged by the caller.
pub fn stripe_error() -> (e: ApiError)
    ensures
        e@ == stripe_unavailable_error(),
{
    ApiError::service_unavailable(
        "STRIPE_UNAVAILABLE",
        "Stripeとの連携に失敗しました。時間をおいて再試行してください。",
    )
}

/// The 404 of a checkout for a plan that is unknown or inactive.
pub fn plan_not_found() -> (e: ApiError)
    ensures
        e@ == (404u16, "NOT_FOUND"@, "利用可能なプランが見つかりません。"@),
{
    ApiError::not_found("利用可能なプランが見つかりません。")
}

/// The 404 of a portal request by a tenant without a Stripe customer.
pub fn subscription_not_found() -> (e: ApiError)
    ensures
        e@ == (404u16, "NOT_FOUND"@, "Stripe契約情報がありません。"@),
{
    ApiError::not_found("Stripe契約情報がありません。")
}

/// A tenant's existing subscription, as checkout sees it.
pub struct ExistingSubscription {
    pub stripe_customer_id: String,
    pub stripe_subscription_id: Option<String>,
    pub status: String,
}

/// Which Stripe customer a checkout uses.
pub enum CheckoutCustomer {
    /// The tenant's customer from its earlier subscription.
    Existing(String),
    /// None yet: one is created.
    Create,
}

pub open spec fn subscription_exists_error() -> (u16, Seq<char>, Seq<char>) {
    (
        409u16,
        "SUBSCRIPTION_ALREADY_EXISTS"@,
        "既存契約の変更はStripe請求ポータルから行ってください。"@,
    )
}

/// A tenant with a live Stripe subscription (one not canceled) changes it in
/// the portal, not by a new checkout: `SUBSCRIPTION_ALREADY_EXISTS`.
/// Otherwise checkout reuses the tenant's customer if it has one.
pub fn checkout_customer(existing: Option<ExistingSubscription>) -> (r: ApiResult<CheckoutCustomer>)
    ensures
        match existing {
            Some(e) => if e.stripe_subscription_id is Some && e.status@ != "canceled"@ {
                r matches Err(err) && err@ == subscription_exists_error()
            } else {
                r matches Ok(CheckoutCustomer::Existing(id)) && id == e.stripe_customer_id
            },
            None => r matches Ok(CheckoutCustomer::Create),
        },
{
    match existing {
        Some(e) => {
            if e.stripe_subscription_id.is_some() && !str_eq(e.status.as_str(), "canceled") {
                Err(
                    ApiError::conflict(
                        "SUBSCRIPTION_ALREADY_EXISTS",
                        "既存契約の変更はStripe請求ポータルから行ってください。",
                    ),
                )
            } else {
                Ok(CheckoutCustomer::Existing(e.stripe_customer_id))
            }
        },
        None => Ok(CheckoutCustomer::Create),
    }
}

/// A page of the application's billing screen.
pub fn billing_url(app_base_url: &str, suffix: &str) -> (r: String)
    ensures
        r@ == app_base_url@ + "/billing"@ + suffix@,
{
    let mut r = app_base_url.to_owned();
    crate::text::push_str(&mut r, "/billing");
    crate::text::push_str(&mut r, suffix);
    r
}

/// What a webhook event asks for.
#[derive(Debug, PartialEq, Eq)]
pub enum WebhookEventKind {
    CheckoutCompleted,
    SubscriptionUpdated,
    SubscriptionDeleted,
    Ignored,
}

/// The handling of a webhook event by its type.
pub fn webhook_event_kind(event_type: &str) -> (r: WebhookEventKind)
    ensures
        r == if event_type@ == "checkout.session.completed"@ {
            WebhookEventKind::CheckoutCompleted
        } else if event_type@ == "customer.subscription.created"@ || event_type@
            == "customer.subscription.updated"@ {
            WebhookEventKind::SubscriptionUpdated
        } else if event_type@ == "customer.subscription.deleted"@ {
            WebhookEventKind::SubscriptionDeleted
        } else {
            WebhookEventKind::Ignored
        },
{
    if str_eq(event_type, "checkout.session.completed") {
        WebhookEventKind::CheckoutCompleted
    } else if str_eq(event_type, "customer.subscription.created") || str_eq(
        event_type,
        "customer.subscription.updated",
    ) {
        WebhookEventKind::SubscriptionUpdated
    } else if str_eq(event_type, "customer.subscription.deleted") {
        WebhookEventKind::SubscriptionDeleted
    } else {
        WebhookEventKind::Ignored
    }
}

/// A webhook event: its ID, type and the fields of its object that the
/// service reads (`None` where the JSON lacks the field or it has another
/// type).
pub struct StripeEvent {
    pub id: String,
    pub event_type: String,
    pub object: StripeEventObject,
}

/// The fields of a webhook event's object that the service reads.
pub struct StripeEventObject {
    /// `/metadata/tenant_id`
    pub metadata_tenant_id: Option<String>,
    /// `/metadata/plan_id`
    pub metadata_plan_id: Option<String>,
    /// `/id`
    pub id: Option<String>,
    /// `/customer`
    pub customer: Option<String>,
    /// `/subscription`
    pub subscription: Option<String>,
    /// `/status`
    pub status: Option<String>,
    /// `/items/data/0/price/id`
    pub price_id: Option<String>,
    /// `/items/data/0/price/unit_amount`
    pub unit_amount: Option<i64>,
    /// `/items/data/0/price/recurring/interval`
    pub billing_interval: Option<String>,
    /// `/current_period_end`
    pub current_period_end: Option<i64>,
    /// `/items/data/0/current_period_end`
    pub item_current_period_end: Option<i64>,
    /// `/cancel_at_period_end`
    pub cancel_at_period_end: Option<bool>,
}

/// The UUID in a metadata value.
pub open spec fn metadata_uuid_spec(value: Option<String>) -> Option<u128> {
    match value {
        Some(s) => uuid_parse(s@),
        None => None,
    }
}

/// A metadata value parsed as a UUID, or `INVALID_STRIPE_WEBHOOK`.
pub fn metadata_uuid(value: &Option<String>) -> (r: ApiResult<u128>)
    ensures
        match r {
            Ok(id) => metadata_uuid_spec(*value) == Some(id),
            Err(e) => metadata_uuid_spec(*value) is None && e@ == invalid_webhook_error(),
        },
{
    match value {
        Some(s) => match parse_uuid(s.as_str()) {
            Some(id) => Ok(id),
            None => Err(invalid_webhook()),
        },
        None => Err(invalid_webhook()),
    }
}

/// A string field that must be present, or `INVALID_STRIPE_WEBHOOK`.
pub fn required_string(value: &Option<String>) -> (r: ApiResult<String>)
    ensures
        match r {
            Ok(s) => *value == Some(s),
            Err(e) => *value is None && e@ == invalid_webhook_error(),
        },
{
    match value {
        Some(s) => Ok(s.clone()),
        None => Err(invalid_webhook()),
    }
}

/// What a completed checkout records.
pub struct CheckoutCompletion {
    pub tenant_id: u128,
    pub plan_id: u128,
    pub customer_id: String,
    pub subscription_id: String,
}

/// The fields of a completed Checkout session, read in the order tenant,
/// plan, customer, subscription; the first missing one is
/// `INVALID_STRIPE_WEBHOOK`.
pub fn checkout_completion(object: &StripeEventObject) -> (r: ApiResult<CheckoutCompletion>)
    ensures
        match r {
            Ok(c) => {
                &&& metadata_uuid_spec(object.metadata_tenant_id) == Some(c.tenant_id)
                &&& metadata_uuid_spec(object.metadata_plan_id) == Some(c.plan_id)
                &&& object.customer == Some(c.customer_id)
                &&& object.subscription == Some(c.subscription_id)
            },
            Err(e) => e@ == invalid_webhook_error() && (metadata_uuid_spec(
                object.metadata_tenant_id,
            ) is None || metadata_uuid_spec(object.metadata_plan_id) is None
                || object.customer is None || object.subscription is None),
        },
{
    let tenant_id = metadata_uuid(&object.metadata_tenant_id)?;
    let plan_id = metadata_uuid(&object.metadata_plan_id)?;
    let customer_id = required_string(&object.customer)?;
    let subscription_id = required_string(&object.subscription)?;
    Ok(CheckoutCompletion { tenant_id, plan_id, customer_id, subscription_id })
}

/// The identifying fields of a created or updated subscription.
pub struct SubscriptionChange {
    pub tenant_id: u128,
    pub subscription_id: String,
    pub customer_id: String,
    pub status: String,
    pub stripe_price_id: String,
}

/// The fields of a created or updated subscription, read in the order
/// tenant, ID, customer, status, price; the first missing one is
/// `INVALID_STRIPE_WEBHOOK`.
pub fn subscription_change(object: &StripeEventObject) -> (r: ApiResult<SubscriptionChange>)
    ensures
        match r {
            Ok(c) => {
                &&& metadata_uuid_spec(object.metadata_tenant_id) == Some(c.tenant_id)
                &&& object.id == Some(c.subscription_id)
                &&& object.customer == Some(c.customer_id)
                &&& object.status == Some(c.status)
                &&& object.price_id == Some(c.stripe_price_id)
            },
            Err(e) => e@ == invalid_webhook_error() && (metadata_uuid_spec(
                object.metadata_tenant_id,
            ) is None || object.id is None || object.customer is None || object.status is None
                || object.price_id is None),
        },
{
    let tenant_id = metadata_uuid(&object.metadata_tenant_id)?;
    let subscription_id = required_string(&object.id)?;
    let customer_id = required_string(&object.customer)?;
    let status = required_string(&object.status)?;
    let stripe_price_id = required_string(&object.price_id)?;
    Ok(SubscriptionChange { tenant_id, subscription_id, customer_id, status, stripe_price_id })
}

/// The plan of an updated subscription: the plan that has its price, else
/// the plan in its metadata, else `INVALID_STRIPE_WEBHOOK`.
pub fn resolve_plan_id(plan_by_price: Option<u128>, object: &StripeEventObject) -> (r: ApiResult<
    u128,
>)
    ensures
        match plan_by_price {
            Some(id) => r matches Ok(p) && p == id,
            None => match metadata_uuid_spec(object.metadata_plan_id) {
                Some(id) => r matches Ok(p) && p == id,
                None => r matches Err(e) && e@ == invalid_webhook_error(),
            },
        },
{
    match plan_by_price {
        Some(id) => Ok(id),
        None => match metadata_uuid(&object.metadata_plan_id) {
            Ok(id) => Ok(id),
            Err(_) => Err(invalid_webhook()),
        },
    }
}

/// The end of the current period: the subscription's own, else its first
/// item's.
pub fn subscription_period_end(object: &StripeEventObject) -> (r: Option<i64>)
    ensures
        r == match object.current_period_end {
            Some(t) => Some(t),
            None => object.item_current_period_end,
        },
{
    match object.current_period_end {
        Some(t) => Some(t),
        None => object.item_current_period_end,
    }
}

/// Whether the subscription ends with its period; absent means no.
pub fn cancels_at_period_end(object: &StripeEventObject) -> (r: bool)
    ensures
        r == (object.cancel_at_period_end == Some(true)),
{
    match object.cancel_at_period_end {
        Some(b) => b,
        None => false,
    }
}

/// The identifying fields of a deleted subscription.
pub struct SubscriptionDeletion {
    pub tenant_id: u128,
    pub subscription_id: String,
}

/// The tenant and ID of a deleted subscription, or `INVALID_STRIPE_WEBHOOK`.
pub fn subscription_deletion(object: &StripeEventObject) -> (r: ApiResult<SubscriptionDeletion>)
    ensures
        match r {
            Ok(d) => metadata_uuid_spec(object.metadata_tenant_id) == Some(d.tenant_id)
                && object.id == Some(d.subscription_id),
            Err(e) => e@ == invalid_webhook_error() && (metadata_uuid_spec(
                object.metadata_tenant_id,
            ) is None || object.id is None),
        },
{
    let tenant_id = metadata_uuid(&object.metadata_tenant_id)?;
    let subscription_id = required_string(&object.id)?;
    Ok(SubscriptionDeletion { tenant_id, subscription_id })
}

} // verus!
