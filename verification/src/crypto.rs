//! Calls into the cryptography crates, each behind a contract that states
//! what the crate documents of it.
use aes_gcm::aead::{Aead, KeyInit};
use aes_gcm::{Aes256Gcm, Nonce};
use argon2::password_hash::rand_core::OsRng;
use argon2::password_hash::SaltString;
use argon2::{Argon2, PasswordHash, PasswordHasher, PasswordVerifier};
use hmac::{Hmac, Mac};
use rand::RngCore;
use sha1::Sha1;
use sha2::{Digest, Sha256};
use subtle::ConstantTimeEq;
use vstd::prelude::*;

verus! {

/// The contents of an optional byte vector.
pub open spec fn bytes_view(o: Option<Vec<u8>>) -> Option<Seq<u8>> {
    match o {
        Some(v) => Some(v@),
        None => None,
    }
}

/// The contents of an optional string.
pub open spec fn text_view(o: Option<String>) -> Option<Seq<char>> {
    match o {
        Some(s) => Some(s@),
        None => None,
    }
}

/// The SHA-256 digest of `data`.
pub uninterp spec fn sha256(data: Seq<u8>) -> Seq<u8>;

/// The HMAC-SHA1 tag of `message` under `key`.
pub uninterp spec fn hmac_sha1(key: Seq<u8>, message: Seq<u8>) -> Seq<u8>;

/// The HMAC-SHA256 tag of `message` under `key`.
pub uninterp spec fn hmac_sha256(key: Seq<u8>, message: Seq<u8>) -> Seq<u8>;

/// AES-256-GCM encryption of `plaintext` under `key` and a 12-byte `nonce`:
/// the ciphertext followed by the 16-byte tag, or `None` when the plaintext
/// is longer than the cipher accepts.
pub uninterp spec fn aes256gcm_seal(key: Seq<u8>, nonce: Seq<u8>, plaintext: Seq<u8>) -> Option<
    Seq<u8>,
>;

/// AES-256-GCM decryption: the plaintext, or `None` when the tag does not
/// authenticate the ciphertext.
pub uninterp spec fn aes256gcm_open(key: Seq<u8>, nonce: Seq<u8>, ciphertext: Seq<u8>) -> Option<
    Seq<u8>,
>;

/// The PHC string that Argon2 (default parameters, Argon2id) produces for
/// `password` with the B64 salt `salt`, or `None` when the salt is malformed.
pub uninterp spec fn argon2_phc(password: Seq<u8>, salt: Seq<char>) -> Option<Seq<char>>;

/// Whether `password` matches the PHC string `phc` under Argon2, or `None`
/// when `phc` is not a PHC string.
pub uninterp spec fn argon2_check(password: Seq<u8>, phc: Seq<char>) -> Option<bool>;

/// `sha2::Sha256::digest`: the digest, 32 bytes long.
#[verifier::external_body]
pub fn sha256_digest(data: &[u8]) -> (r: Vec<u8>)
    ensures
        r@ == sha256(data@),
        r@.len() == 32,
{
    Sha256::digest(data).to_vec()
}

/// `Hmac::<Sha1>::new_from_slice`, `update`, `finalize`: the 20-byte tag.
/// HMAC accepts keys of every length, so the key is never refused.
#[verifier::external_body]
pub fn hmac_sha1_tag(key: &[u8], message: &[u8]) -> (r: Vec<u8>)
    ensures
        r@ == hmac_sha1(key@, message@),
        r@.len() == 20,
{
    let mut mac = <Hmac<Sha1> as Mac>::new_from_slice(key).expect("HMAC accepts any key size");
    mac.update(message);
    mac.finalize().into_bytes().to_vec()
}

/// `Hmac::<Sha256>::verify_slice` after `update`: true exactly when `tag`
/// equals the HMAC-SHA256 tag of `message` under `key`; a tag that is not
/// 32 bytes long, the output size, is refused.
#[verifier::external_body]
pub fn hmac_sha256_verify(key: &[u8], message: &[u8], tag: &[u8]) -> (r: bool)
    ensures
        r == (tag@ == hmac_sha256(key@, message@)),
        r ==> tag@.len() == 32,
{
    let mut mac = <Hmac<Sha256> as Mac>::new_from_slice(key).expect("HMAC accepts any key size");
    mac.update(message);
    mac.verify_slice(tag).is_ok()
}

/// `subtle::ConstantTimeEq::ct_eq` on byte slices: true exactly when they are
/// equal.
#[verifier::external_body]
pub fn ct_eq_bytes(a: &[u8], b: &[u8]) -> (r: bool)
    ensures
        r == (a@ == b@),
{
    a.ct_eq(b).into()
}

/// `rand::RngCore::fill_bytes` on the thread-local generator: `n` random
/// bytes. Nothing is promised of their values.
#[verifier::external_body]
pub fn random_bytes(n: usize) -> (r: Vec<u8>)
    ensures
        r@.len() == n,
{
    let mut bytes = vec![0_u8; n];
    rand::thread_rng().fill_bytes(&mut bytes);
    bytes
}

/// `Aes256Gcm::encrypt` with a 32-byte key and a 12-byte nonce; on success
/// the output is the ciphertext and the 16-byte tag.
#[verifier::external_body]
pub fn aes256gcm_encrypt(key: &[u8; 32], nonce: &[u8], plaintext: &[u8]) -> (r: Option<Vec<u8>>)
    requires
        nonce@.len() == 12,
    ensures
        bytes_view(r) == aes256gcm_seal(key@, nonce@, plaintext@),
        r matches Some(c) ==> c@.len() == plaintext@.len() + 16,
{
    let cipher = Aes256Gcm::new(key.into());
    cipher.encrypt(Nonce::from_slice(nonce), plaintext).ok()
}

/// `Aes256Gcm::decrypt` with a 32-byte key and a 12-byte nonce. What
/// encryption produced under the same key and nonce decrypts to its
/// plaintext.
#[verifier::external_body]
pub fn aes256gcm_decrypt(key: &[u8; 32], nonce: &[u8], ciphertext: &[u8]) -> (r: Option<Vec<u8>>)
    requires
        nonce@.len() == 12,
    ensures
        bytes_view(r) == aes256gcm_open(key@, nonce@, ciphertext@),
        forall|p: Seq<u8>|
            #[trigger] aes256gcm_seal(key@, nonce@, p) == Some(ciphertext@) ==> bytes_view(r)
                == Some(p),
{
    let cipher = Aes256Gcm::new(key.into());
    cipher.decrypt(Nonce::from_slice(nonce), ciphertext).ok()
}

/// `SaltString::generate` with the operating system's generator: the B64
/// text of 16 random bytes. Which bytes is not promised; every such salt is
/// valid, so Argon2 hashes with it any password of at most `u32::MAX` bytes.
#[verifier::external_body]
pub fn generate_salt() -> (r: String)
    ensures
        forall|p: Seq<u8>| p.len() <= 0xffff_ffff ==> (#[trigger] argon2_phc(p, r@)) is Some,
{
    SaltString::generate(&mut OsRng).as_str().to_owned()
}

/// The start of the PHC string of an Argon2id hash of version 19 (0x13).
pub open spec fn argon2id_phc_prefix() -> Seq<char> {
    "$argon2id$v=19$"@
}

/// A PHC string that starts as an Argon2id hash of version 19 does.
pub open spec fn is_argon2id_phc(h: Seq<char>) -> bool {
    argon2id_phc_prefix().len() <= h.len() && h.take(argon2id_phc_prefix().len() as int)
        == argon2id_phc_prefix()
}

/// `PasswordHasher::hash_password` of `Argon2::default()` (Argon2id, version
/// 0x13), as a PHC string. The hash verifies against the password that
/// produced it.
#[verifier::external_body]
pub fn argon2_hash(password: &[u8], salt: &str) -> (r: Option<String>)
    ensures
        text_view(r) == argon2_phc(password@, salt@),
        r matches Some(h) ==> argon2_check(password@, h@) == Some(true),
        r matches Some(h) ==> is_argon2id_phc(h@),
{
    let salt = SaltString::from_b64(salt).ok()?;
    Argon2::default().hash_password(password, &salt).ok().map(|hash| hash.to_string())
}

/// `PasswordHash::new` then `PasswordVerifier::verify_password` of
/// `Argon2::default()`: `None` when `phc` does not parse, else whether the
/// password matches.
#[verifier::external_body]
pub fn argon2_verify(password: &[u8], phc: &str) -> (r: Option<bool>)
    ensures
        r == argon2_check(password@, phc@),
{
    let parsed = PasswordHash::new(phc).ok()?;
    Some(Argon2::default().verify_password(password, &parsed).is_ok())
}

/// The seconds since the Unix epoch by `SystemTime::now`, or `None` when the
/// clock stands before the epoch. Nothing is promised of the value.
#[verifier::external_body]
pub fn unix_time_now() -> (r: Option<u64>) {
    std::time::SystemTime::now().duration_since(std::time::UNIX_EPOCH).ok().map(|d| d.as_secs())
}

} // verus!
