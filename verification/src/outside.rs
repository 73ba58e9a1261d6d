//! Trusted declarations for the outside collaborators: the base64 codec,
//! the two AEAD primitives, and UTF-8 text decoding.
//!
//! Each wrapper's contract states what the outside call returns; the results
//! of the AEAD and base64 functions are named by uninterpreted spec
//! functions, since their values are functions of the arguments alone but
//! far too long to state.
use vstd::prelude::*;
use base64::Engine;
use aes_gcm::KeyInit;
use aes_gcm::aead::Aead;

verus! {

/// The longest plaintext AES-256-GCM seals: beyond it, sealing reports an
/// error.
pub const GCM_P_MAX: u64 = 0x10_0000_0000 - 32;

/// The longest plaintext AES-256-GCM-SIV seals.
pub const SIV_P_MAX: u64 = 0x10_0000_0000;

/// The standard base64 encoding (with padding) of a byte sequence.
pub uninterp spec fn b64_of(bytes: Seq<u8>) -> Seq<char>;

/// What AES-256-GCM sealing returns for a key, nonce and plaintext.
pub uninterp spec fn gcm_seal_of(key: Seq<u8>, nonce: Seq<u8>, plaintext: Seq<u8>) -> Seq<u8>;

/// What AES-256-GCM opening returns for a key, nonce and sealed bytes.
pub uninterp spec fn gcm_open_of(key: Seq<u8>, nonce: Seq<u8>, sealed: Seq<u8>) -> Option<Seq<u8>>;

/// What AES-256-GCM-SIV sealing returns for a key, nonce and plaintext.
pub uninterp spec fn siv_seal_of(key: Seq<u8>, nonce: Seq<u8>, plaintext: Seq<u8>) -> Seq<u8>;

/// What AES-256-GCM-SIV opening returns for a key, nonce and sealed bytes.
pub uninterp spec fn siv_open_of(key: Seq<u8>, nonce: Seq<u8>, sealed: Seq<u8>) -> Option<Seq<u8>>;

/// Relies on base64's `Engine::encode` with the `STANDARD` engine: the
/// encoding is a function of the bytes alone, four characters for every
/// three bytes (the last group padded), and its alphabet (`A`-`Z`, `a`-`z`,
/// `0`-`9`, `+`, `/`, and the pad `=`) holds no newline.
#[verifier::external_body]
pub fn b64_encode(bytes: &[u8]) -> (r: String)
    ensures
        r@ == b64_of(bytes@),
        r@.len() == 4 * ((bytes@.len() + 2) / 3),
        forall|i: int| 0 <= i < r@.len() ==> r@[i] != '\n',
{
    base64::engine::general_purpose::STANDARD.encode(bytes)
}

/// Relies on base64's `Engine::decode` with the `STANDARD` engine, whose
/// configuration requires canonical padding and rejects set trailing bits:
/// it accepts exactly the canonical encodings, and decoding inverts
/// encoding.
#[verifier::external_body]
pub fn b64_decode(s: &str) -> (r: Option<Vec<u8>>)
    ensures
        r matches Some(v) ==> s@ == b64_of(v@),
        r matches Some(v) ==> forall|w: Seq<u8>| s@ == b64_of(w) ==> w == v@,
        (exists|w: Seq<u8>| s@ == b64_of(w)) ==> r is Some,
{
    base64::engine::general_purpose::STANDARD.decode(s).ok()
}

/// Relies on `Aes256Gcm::encrypt` (via `KeyInit::new_from_slice`): sealing
/// is deterministic in key, nonce and plaintext, it errors only beyond the
/// plaintext bound, and `Aes256Gcm::decrypt` inverts it.
#[verifier::external_body]
pub fn gcm_seal(key: &[u8], nonce: &[u8], plaintext: &[u8]) -> (r: Option<Vec<u8>>)
    requires
        key@.len() == 32,
        nonce@.len() == 12,
    ensures
        r matches Some(v) ==> v@ == gcm_seal_of(key@, nonce@, plaintext@),
        plaintext@.len() <= GCM_P_MAX ==> r is Some,
{
    let cipher = match aes_gcm::Aes256Gcm::new_from_slice(key) {
        Ok(c) => c,
        Err(_) => return None,
    };
    let n: aes_gcm::Nonce<aes_gcm::aead::consts::U12> = match nonce.try_into() {
        Ok(n) => n,
        Err(_) => return None,
    };
    cipher.encrypt(&n, plaintext).ok()
}

/// Relies on `Aes256Gcm::decrypt`: opening is deterministic in key, nonce
/// and sealed bytes, succeeds on anything `Aes256Gcm::encrypt` sealed under
/// the same key and nonce, and then returns that plaintext.
#[verifier::external_body]
pub fn gcm_open(key: &[u8], nonce: &[u8], sealed: &[u8]) -> (r: Option<Vec<u8>>)
    requires
        key@.len() == 32,
        nonce@.len() == 12,
    ensures
        r matches Some(v) ==> gcm_open_of(key@, nonce@, sealed@) == Some(v@),
        r is None ==> gcm_open_of(key@, nonce@, sealed@) is None,
        (exists|p: Seq<u8>|
            p.len() <= GCM_P_MAX && sealed@ == gcm_seal_of(key@, nonce@, p)) ==> r is Some,
        r matches Some(v) ==> forall|p: Seq<u8>|
            p.len() <= GCM_P_MAX && sealed@ == gcm_seal_of(key@, nonce@, p) ==> v@ == p,
{
    let cipher = match aes_gcm::Aes256Gcm::new_from_slice(key) {
        Ok(c) => c,
        Err(_) => return None,
    };
    let n: aes_gcm::Nonce<aes_gcm::aead::consts::U12> = match nonce.try_into() {
        Ok(n) => n,
        Err(_) => return None,
    };
    cipher.decrypt(&n, sealed).ok()
}

/// Relies on `Aes256GcmSiv::encrypt` (via `KeyInit::new_from_slice`):
/// sealing is deterministic in key, nonce and plaintext, it errors only
/// beyond the plaintext bound, and `Aes256GcmSiv::decrypt` inverts it.
#[verifier::external_body]
pub fn siv_seal(key: &[u8], nonce: &[u8], plaintext: &[u8]) -> (r: Option<Vec<u8>>)
    requires
        key@.len() == 32,
        nonce@.len() == 12,
    ensures
        r matches Some(v) ==> v@ == siv_seal_of(key@, nonce@, plaintext@),
        plaintext@.len() <= SIV_P_MAX ==> r is Some,
{
    let cipher = match aes_gcm_siv::Aes256GcmSiv::new_from_slice(key) {
        Ok(c) => c,
        Err(_) => return None,
    };
    let n: aes_gcm_siv::Nonce = match nonce.try_into() {
        Ok(n) => n,
        Err(_) => return None,
    };
    cipher.encrypt(&n, plaintext).ok()
}

/// Relies on `Aes256GcmSiv::decrypt`: opening is deterministic in key,
/// nonce and sealed bytes, succeeds on anything `Aes256GcmSiv::encrypt`
/// sealed under the same key and nonce, and then returns that plaintext.
#[verifier::external_body]
pub fn siv_open(key: &[u8], nonce: &[u8], sealed: &[u8]) -> (r: Option<Vec<u8>>)
    requires
        key@.len() == 32,
        nonce@.len() == 12,
    ensures
        r matches Some(v) ==> siv_open_of(key@, nonce@, sealed@) == Some(v@),
        r is None ==> siv_open_of(key@, nonce@, sealed@) is None,
        (exists|p: Seq<u8>|
            p.len() <= SIV_P_MAX && sealed@ == siv_seal_of(key@, nonce@, p)) ==> r is Some,
        r matches Some(v) ==> forall|p: Seq<u8>|
            p.len() <= SIV_P_MAX && sealed@ == siv_seal_of(key@, nonce@, p) ==> v@ == p,
{
    let cipher = match aes_gcm_siv::Aes256GcmSiv::new_from_slice(key) {
        Ok(c) => c,
        Err(_) => return None,
    };
    let n: aes_gcm_siv::Nonce = match nonce.try_into() {
        Ok(n) => n,
        Err(_) => return None,
    };
    cipher.decrypt(&n, sealed).ok()
}

/// Relies on `core::str::from_utf8`: it succeeds exactly on valid UTF-8,
/// and returns the text those bytes encode.
#[verifier::external_body]
pub fn utf8_to_string(bytes: &[u8]) -> (r: Option<String>)
    ensures
        r matches Some(t) ==> vstd::utf8::valid_utf8(bytes@) && vstd::utf8::encode_utf8(t@)
            == bytes@,
        r is None ==> !vstd::utf8::valid_utf8(bytes@),
{
    match core::str::from_utf8(bytes) {
        Ok(s) => Some(s.to_string()),
        Err(_) => None,
    }
}

} // verus!
