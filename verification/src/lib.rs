//! Text-envelope codec for authenticated-encryption payloads.
//!
//! A plaintext is sealed by an AEAD primitive under a key and nonce derived
//! deterministically from a password, and the sealed bytes are framed as a
//! MIME-like text block: a dashed header line, a base64 body wrapped at a
//! fixed column width, and a matching footer line.  Decryption reverses the
//! framing and opens the sealed bytes.
//!
//! The derivation of key and nonce from the password is a deterministic
//! byte-padding scheme, not a key-derivation function, and the nonce is a
//! slice of the key material rather than a random value.  Both are kept
//! exactly as the wire format demands; neither is a recommended pattern for
//! new designs.
use vstd::prelude::*;
use vstd::string::StringExecFns;

pub mod aes_256_gcm;
pub mod aes_256_gcm_siv;
mod envelope;
mod numfmt;
mod outside;
pub mod shared;

verus! {

/// Return the module name.
pub fn get_name() -> (r: String)
    ensures
        r@ == "crypt"@,
{
    String::from_str("crypt")
}

/// Return the number of algorithms available.
pub fn get_num_algorithms() -> (r: usize)
    ensures
        r == shared::algorithms().len(),
{
    2
}

/// Returns the n-th algorithm, zero based index.
pub fn get_algorithm(i: usize) -> (r: String)
    ensures
        i < shared::algorithms().len() ==> r@ == shared::algorithms()[i as int],
        i >= shared::algorithms().len() ==> r@ == "error:algorithms:invalid-index:"@
            + numfmt::decimal(i as nat),
{
    if i < 2 {
        let a = shared::algorithm_at(i);
        String::from_str(a)
    } else {
        let mut r = String::from_str("error:algorithms:invalid-index:");
        let d = numfmt::usize_to_decimal(i);
        r.append(d.as_str());
        r
    }
}

/// Return the header prefix.
pub fn header_prefix(algorithm: String) -> (r: String)
    ensures
        shared::is_valid_algorithm_spec(algorithm@) ==> r@ == shared::header_prefix_spec(
            algorithm@,
        ),
        !shared::is_valid_algorithm_spec(algorithm@) ==> r@ == "error:header:invalid-algorithm"@,
{
    shared::header_prefix(algorithm)
}

/// Return the header suffix.
pub fn header_suffix(algorithm: String) -> (r: String)
    ensures
        shared::is_valid_algorithm_spec(algorithm@) ==> r@ == shared::header_suffix_spec(
            algorithm@,
        ),
        !shared::is_valid_algorithm_spec(algorithm@) ==> r@ == "error:header:invalid-algorithm"@,
{
    shared::header_suffix(algorithm)
}

/// Encrypts a string using the specified algorithm.
///
/// It accepts a plaintext string and converts it to a MIME encoded block
/// with a prefix and suffix.
///
/// # Arguments
/// * `algorithm`: The algorithm identifier.
/// * `password`: Used to encrypt the plaintext.
/// * `plaintext`: The string to encrypt.
///
/// # Returns
/// The encrypted, mime encoded ciphertext.
pub fn encrypt(algorithm: String, password: String, plaintext: String) -> (r: String)
    ensures
        !shared::is_valid_algorithm_spec(algorithm@) ==> r@ == "error:encrypt:invalid:"@
            + algorithm@,
        algorithm@ == "crypt-aes-256-gcm"@ ==> {
            &&& vstd::utf8::encode_utf8(plaintext@).len() <= outside::GCM_P_MAX ==> r@
                == aes_256_gcm::encrypt_model(password@, plaintext@)
                && aes_256_gcm::round_trip_ready(password@, plaintext@)
            &&& r@ == aes_256_gcm::encrypt_model(password@, plaintext@) || r@
                == aes_256_gcm::seal_failed_marker()
        },
        algorithm@ == "crypt-aes-256-gcm-siv"@ ==> {
            &&& vstd::utf8::encode_utf8(plaintext@).len() <= outside::SIV_P_MAX ==> r@
                == aes_256_gcm_siv::encrypt_model(password@, plaintext@)
                && aes_256_gcm_siv::round_trip_ready(password@, plaintext@)
            &&& r@ == aes_256_gcm_siv::encrypt_model(password@, plaintext@) || r@
                == aes_256_gcm_siv::seal_failed_marker()
        },
{
    proof {
        reveal_strlit("crypt-aes-256-gcm");
        reveal_strlit("crypt-aes-256-gcm-siv");
    }
    if !shared::is_valid_algorithm(algorithm.clone()) {
        let mut r = String::from_str("error:encrypt:invalid:");
        r.append(algorithm.as_str());
        return r;
    }
    let a0 = String::from_str("crypt-aes-256-gcm");
    if algorithm.eq(&a0) {
        return aes_256_gcm::encrypt(password, plaintext);
    }
    let a1 = String::from_str("crypt-aes-256-gcm-siv");
    if algorithm.eq(&a1) {
        return aes_256_gcm_siv::encrypt(password, plaintext);
    }
    let mut r = String::from_str("error:encrypt:not-implemented:");
    r.append(algorithm.as_str());
    r
}

/// Decrypt a string.
///
/// It accepts a ciphertext string created by the `encrypt` function
/// and converts it back to a plaintext string: decrypting what `encrypt`
/// produced, with the same algorithm and password, returns the original
/// plaintext.
///
/// # Arguments
/// * `algorithm`: The algorithm identifier.
/// * `password`: Used to encrypt the plaintext.
/// * `ciphertext`: The encrypted, mime encoded plaintext.
///
/// # Returns
/// The unencrypted plaintext to the caller.
pub fn decrypt(algorithm: String, password: String, ciphertext: String) -> (r: String)
    ensures
        !shared::is_valid_algorithm_spec(algorithm@) ==> r@ == "error:decrypt:invalid:"@
            + algorithm@,
        algorithm@ == "crypt-aes-256-gcm"@ ==> r@ == aes_256_gcm::decrypt_model(
            password@,
            ciphertext@,
        ),
        algorithm@ == "crypt-aes-256-gcm-siv"@ ==> r@ == aes_256_gcm_siv::decrypt_model(
            password@,
            ciphertext@,
        ),
        algorithm@ == "crypt-aes-256-gcm"@ ==> forall|pt: Seq<char>|
            aes_256_gcm::round_trip_ready(password@, pt) && ciphertext@
                == #[trigger] aes_256_gcm::encrypt_model(password@, pt) ==> r@ == pt,
        algorithm@ == "crypt-aes-256-gcm-siv"@ ==> forall|pt: Seq<char>|
            aes_256_gcm_siv::round_trip_ready(password@, pt) && ciphertext@
                == #[trigger] aes_256_gcm_siv::encrypt_model(password@, pt) ==> r@ == pt,
{
    proof {
        reveal_strlit("crypt-aes-256-gcm");
        reveal_strlit("crypt-aes-256-gcm-siv");
    }
    if !shared::is_valid_algorithm(algorithm.clone()) {
        let mut r = String::from_str("error:decrypt:invalid:");
        r.append(algorithm.as_str());
        return r;
    }
    let a0 = String::from_str("crypt-aes-256-gcm");
    if algorithm.eq(&a0) {
        return aes_256_gcm::decrypt(password, ciphertext);
    }
    let a1 = String::from_str("crypt-aes-256-gcm-siv");
    if algorithm.eq(&a1) {
        return aes_256_gcm_siv::decrypt(password, ciphertext);
    }
    let mut r = String::from_str("error:decrypt:not-implemented:");
    r.append(algorithm.as_str());
    r
}

} // verus!
