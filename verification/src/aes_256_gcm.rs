//! Implementation of the AES-256-GCM encrypt/decrypt algorithms.
use vstd::prelude::*;
use vstd::string::{StrSliceExecFns, StringExecFns};
use crate::envelope;
use crate::outside;
use crate::shared;

verus! {

/// The sealed bytes for a password and plaintext under this algorithm.
pub open spec fn sealed_of(pass: Seq<char>, pt: Seq<char>) -> Seq<u8> {
    outside::gcm_seal_of(
        shared::key_of(pass),
        shared::nonce_of(pass),
        vstd::utf8::encode_utf8(pt),
    )
}

/// The envelope that encryption produces for a password and plaintext.
pub open spec fn encrypt_model(pass: Seq<char>, pt: Seq<char>) -> Seq<char> {
    envelope::assemble_spec("crypt-aes-256-gcm"@, outside::b64_of(sealed_of(pass, pt)))
}

/// The marker returned when the AEAD primitive refuses to seal.
pub open spec fn seal_failed_marker() -> Seq<char> {
    "error:encrypt: invalid encrypt \"aead::Error\""@
}

/// A plaintext within the primitive's length bound, whose encoded envelope
/// body holds no newline; every envelope this module produces satisfies it,
/// as `encrypt` ensures.
pub open spec fn round_trip_ready(pass: Seq<char>, pt: Seq<char>) -> bool {
    &&& vstd::utf8::encode_utf8(pt).len() <= outside::GCM_P_MAX
    &&& envelope::no_newline(outside::b64_of(sealed_of(pass, pt)))
}

/// What decryption yields once the envelope body has been isolated.
pub open spec fn decrypt_body_model(pass: Seq<char>, b64: Seq<char>) -> Seq<char> {
    if exists|w: Seq<u8>| b64 == outside::b64_of(w) {
        let bytes = choose|w: Seq<u8>| b64 == outside::b64_of(w);
        match outside::gcm_open_of(shared::key_of(pass), shared::nonce_of(pass), bytes) {
            Option::Some(ptb) => if vstd::utf8::valid_utf8(ptb) {
                vstd::utf8::decode_utf8(ptb)
            } else {
                "error:decrypt: invalid output text"@
            },
            Option::None => "error:decrypt: invalid decrypt \"aead::Error\""@,
        }
    } else {
        "error:decrypt: invalid base64 conversion \"malformed base64\""@
    }
}

/// What decryption returns for a password and envelope text.
pub open spec fn decrypt_model(pass: Seq<char>, ct: Seq<char>) -> Seq<char> {
    match envelope::parse_spec("crypt-aes-256-gcm"@, ct) {
        envelope::ParseOutcome::Body(b64) => decrypt_body_model(pass, b64),
        envelope::ParseOutcome::BadPrefix(l) => "error:decrypt: invalid prefix \""@ + l + "\""@,
        envelope::ParseOutcome::BadSuffix(l) => "error:decrypt: invalid suffix \""@ + l + "\""@,
    }
}

/// Parsing the envelope of a ready plaintext recovers its body.
proof fn lemma_round_trip_parse(pass: Seq<char>, pt: Seq<char>)
    requires
        round_trip_ready(pass, pt),
    ensures
        envelope::parse_spec("crypt-aes-256-gcm"@, encrypt_model(pass, pt))
            == envelope::ParseOutcome::Body(outside::b64_of(sealed_of(pass, pt))),
{
    envelope::lemma_parse_assemble("crypt-aes-256-gcm"@, outside::b64_of(sealed_of(pass, pt)));
}

/// Encrypts a string using the AES-256-GCM algorithm.
///
/// It accepts a plaintext string and converts it to a MIME encoded block
/// with a prefix and suffix.
///
/// # Arguments
/// * `password`: Used to encrypt the plaintext.
/// * `plaintext`: The string to encrypt.
///
/// # Returns
/// The encrypted, mime encoded ciphertext.
pub fn encrypt(password: String, plaintext: String) -> (r: String)
    ensures
        vstd::utf8::encode_utf8(plaintext@).len() <= outside::GCM_P_MAX ==> r@ == encrypt_model(
            password@,
            plaintext@,
        ) && round_trip_ready(password@, plaintext@),
        r@ == encrypt_model(password@, plaintext@) || r@ == seal_failed_marker(),
{
    let key = shared::pkcs7_pad32(password.as_str().as_bytes());
    let ks = key.as_slice();
    let nonce: &[u8] = &ks[0..12];
    proof {
        assert(key@ == shared::key_of(password@));
        assert(nonce@ =~= shared::nonce_of(password@));
    }
    match outside::gcm_seal(ks, nonce, plaintext.as_str().as_bytes()) {
        Option::Some(sealed) => {
            let b64 = outside::b64_encode(sealed.as_slice());
            let out = envelope::assemble(String::from_str("crypt-aes-256-gcm"), b64.as_str());
            proof {
                assert(out@ == encrypt_model(password@, plaintext@));
            }
            out
        },
        Option::None => String::from_str("error:encrypt: invalid encrypt \"aead::Error\""),
    }
}

/// Decrypt a string using AES-256-GCM.
///
/// It accepts a ciphertext string created by the `encrypt` function
/// and converts it back to a plaintext string.  Decrypting any envelope
/// that `encrypt` produced, with the same password, returns the original
/// plaintext.
///
/// # Arguments
/// * `password`: Used to encrypt the plaintext.
/// * `ciphertext`: The encrypted, mime encoded plaintext.
///
/// # Returns
/// The unencrypted plaintext to the caller.
pub fn decrypt(password: String, ciphertext: String) -> (r: String)
    ensures
        r@ == decrypt_model(password@, ciphertext@),
        forall|pt: Seq<char>|
            round_trip_ready(password@, pt) && ciphertext@ == #[trigger] encrypt_model(
                password@,
                pt,
            ) ==> r@ == pt,
{
    let key = shared::pkcs7_pad32(password.as_str().as_bytes());
    let ks = key.as_slice();
    let nonce: &[u8] = &ks[0..12];
    proof {
        assert(key@ == shared::key_of(password@));
        assert(nonce@ =~= shared::nonce_of(password@));
    }
    let parsed = envelope::parse(String::from_str("crypt-aes-256-gcm"), ciphertext.as_str());
    match parsed {
        Result::Err(envelope::EnvelopeError::InvalidPrefix(l)) => {
            let r = shared::quoted_marker("error:decrypt: invalid prefix \"", l.as_str());
            proof {
                assert forall|pt: Seq<char>|
                    round_trip_ready(password@, pt) && ciphertext@ == #[trigger] encrypt_model(
                        password@,
                        pt,
                    ) implies r@ == pt by {
                    lemma_round_trip_parse(password@, pt);
                }
            }
            r
        },
        Result::Err(envelope::EnvelopeError::InvalidSuffix(l)) => {
            let r = shared::quoted_marker("error:decrypt: invalid suffix \"", l.as_str());
            proof {
                assert forall|pt: Seq<char>|
                    round_trip_ready(password@, pt) && ciphertext@ == #[trigger] encrypt_model(
                        password@,
                        pt,
                    ) implies r@ == pt by {
                    lemma_round_trip_parse(password@, pt);
                }
            }
            r
        },
        Result::Ok(body) => {
            match outside::b64_decode(body.as_str()) {
                Option::None => {
                    let r = String::from_str(
                        "error:decrypt: invalid base64 conversion \"malformed base64\"",
                    );
                    proof {
                        assert forall|pt: Seq<char>|
                            round_trip_ready(password@, pt) && ciphertext@
                                == #[trigger] encrypt_model(password@, pt) implies r@ == pt by {
                            lemma_round_trip_parse(password@, pt);
                        }
                    }
                    r
                },
                Option::Some(bytes) => {
                    match outside::gcm_open(ks, nonce, bytes.as_slice()) {
                        Option::None => {
                            let r = String::from_str(
                                "error:decrypt: invalid decrypt \"aead::Error\"",
                            );
                            proof {
                                let w0 = choose|w: Seq<u8>| body@ == outside::b64_of(w);
                                assert(w0 == bytes@);
                                assert(r@ == decrypt_model(password@, ciphertext@));
                                assert forall|pt: Seq<char>|
                                    round_trip_ready(password@, pt) && ciphertext@
                                        == #[trigger] encrypt_model(password@, pt) implies r@
                                    == pt by {
                                    lemma_round_trip_parse(password@, pt);
                                    assert(body@ == outside::b64_of(sealed_of(password@, pt)));
                                    assert(bytes@ == sealed_of(password@, pt));
                                }
                            }
                            r
                        },
                        Option::Some(ptb) => {
                            match outside::utf8_to_string(ptb.as_slice()) {
                                Option::Some(t) => {
                                    proof {
                                        let w0 = choose|w: Seq<u8>| body@ == outside::b64_of(w);
                                        assert(w0 == bytes@);
                                        vstd::utf8::encode_utf8_decode_utf8(t@);
                                        assert(t@ == decrypt_model(password@, ciphertext@));
                                        assert forall|pt: Seq<char>|
                                            round_trip_ready(password@, pt) && ciphertext@
                                                == #[trigger] encrypt_model(
                                                password@,
                                                pt,
                                            ) implies t@ == pt by {
                                            lemma_round_trip_parse(password@, pt);
                                            assert(bytes@ == sealed_of(password@, pt));
                                            assert(ptb@ == vstd::utf8::encode_utf8(pt));
                                            vstd::utf8::encode_utf8_decode_utf8(pt);
                                        }
                                    }
                                    t
                                },
                                Option::None => {
                                    let r = String::from_str("error:decrypt: invalid output text");
                                    proof {
                                        let w0 = choose|w: Seq<u8>| body@ == outside::b64_of(w);
                                        assert(w0 == bytes@);
                                        assert(r@ == decrypt_model(password@, ciphertext@));
                                        assert forall|pt: Seq<char>|
                                            round_trip_ready(password@, pt) && ciphertext@
                                                == #[trigger] encrypt_model(
                                                password@,
                                                pt,
                                            ) implies r@ == pt by {
                                            lemma_round_trip_parse(password@, pt);
                                            assert(bytes@ == sealed_of(password@, pt));
                                            vstd::utf8::encode_utf8_valid_utf8(pt);
                                        }
                                    }
                                    r
                                },
                            }
                        },
                    }
                },
            }
        },
    }
}

} // verus!
