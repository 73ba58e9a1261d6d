//! Tests of the envelope codec through its public call surface.
use aes_gcm::aead::Aead;
use aes_gcm::KeyInit;
use base64::Engine;
use crypt::{decrypt, encrypt, get_algorithm, get_name, get_num_algorithms, header_prefix,
            header_suffix};

#[test]
pub fn test01() {
    // Verify that bad algorithms are caught.
    let algorithm = "bad-bad-bad";

    let prefix = header_prefix(algorithm.to_string());
    assert!(prefix.starts_with("error:header:invalid-algorithm"));

    let password = "secret";
    let plaintext = "Lorem ipsum dolor sit amet, consectetur adipiscing elit, sed do eiusmod tempor incididunt ut labore et dolore magna aliqua.";
    let ciphertext = encrypt(
        algorithm.to_string(),
        password.to_string(),
        plaintext.to_string(),
    );
    assert!(ciphertext.starts_with("error:encrypt:invalid:"));
}

#[test]
pub fn test02() {
    // Verify the algorithms interface.
    let num = get_num_algorithms();
    assert!(num > 0);
    assert!(num == 2);

    let al0 = get_algorithm(0);
    assert!(!al0.starts_with("error:"));

    let aln = get_algorithm(num + 1);
    assert!(aln.starts_with("error:"));
}

#[test]
pub fn test03() {
    // Verify that the aes-256-gcm encryption works.
    let algorithm = "crypt-aes-256-gcm";

    let _prefix = header_prefix(algorithm.to_string());

    let password = "secret";
    let plaintext = "Lorem ipsum dolor sit amet, consectetur adipiscing elit, sed do eiusmod tempor incididunt ut labore et dolore magna aliqua.";
    let ciphertext = encrypt(
        algorithm.to_string(),
        password.to_string(),
        plaintext.to_string(),
    );
    let testtext = decrypt(
        algorithm.to_string(),
        password.to_string(),
        ciphertext.to_string(),
    );
    assert_eq!(&plaintext, &testtext.as_str());
}

#[test]
pub fn test04() {
    // Verify that the aes-256-gcm-siv encryption works.
    let algorithm = "crypt-aes-256-gcm-siv";

    let _prefix = header_prefix(algorithm.to_string());

    let password = "secret";
    let plaintext = "Lorem ipsum dolor sit amet, consectetur adipiscing elit, sed do eiusmod tempor incididunt ut labore et dolore magna aliqua.";
    let ciphertext = encrypt(
        algorithm.to_string(),
        password.to_string(),
        plaintext.to_string(),
    );
    let testtext = decrypt(
        algorithm.to_string(),
        password.to_string(),
        ciphertext.to_string(),
    );
    assert_eq!(&plaintext, &testtext.as_str());
}

#[test]
fn name_and_registry_bounds() {
    assert_eq!(get_name(), "crypt");
    assert_eq!(get_num_algorithms(), 2);
    assert_eq!(get_algorithm(0), "crypt-aes-256-gcm");
    assert_eq!(get_algorithm(1), "crypt-aes-256-gcm-siv");
    assert_eq!(get_algorithm(2), "error:algorithms:invalid-index:2");
    assert_eq!(get_algorithm(13), "error:algorithms:invalid-index:13");
}

#[test]
fn header_prefix_exact() {
    let p = header_prefix("crypt-aes-256-gcm".to_string());
    // title "crypt-aes-256-gcm prefix" has 24 characters; with its two
    // surrounding spaces that leaves 46 columns, 23 dashes on each side.
    let dashes = "-".repeat(23);
    assert_eq!(p, format!("{} crypt-aes-256-gcm prefix {}", dashes, dashes));
    assert!(p.starts_with('-'));
    assert!(p.ends_with('-'));
    assert!(p.contains("crypt-aes-256-gcm prefix"));
}

#[test]
fn header_subject_siv_exact() {
    // title "crypt-aes-256-gcm-siv prefix" has 28 characters; with its two
    // surrounding spaces that leaves 42 columns, 21 dashes on each side.
    let s = crypt::shared::header_subject(
        "crypt-aes-256-gcm-siv".to_string(),
        "prefix".to_string(),
    );
    let dashes = "-".repeat(21);
    assert_eq!(s, format!("{} crypt-aes-256-gcm-siv prefix {}", dashes, dashes));
}

#[test]
fn header_deterministic_and_invalid() {
    let a = header_prefix("crypt-aes-256-gcm".to_string());
    let b = header_prefix("crypt-aes-256-gcm".to_string());
    assert_eq!(a, b);
    let c = header_suffix("crypt-aes-256-gcm".to_string());
    assert_ne!(a, c);
    assert_eq!(
        header_prefix("nope".to_string()),
        "error:header:invalid-algorithm"
    );
    assert_eq!(
        header_suffix("nope".to_string()),
        "error:header:invalid-algorithm"
    );
}

#[test]
fn round_trip_empty_plaintext() {
    for algorithm in ["crypt-aes-256-gcm", "crypt-aes-256-gcm-siv"] {
        let ct = encrypt(algorithm.to_string(), "pw".to_string(), "".to_string());
        assert!(!ct.starts_with("error:"), "{}", ct);
        let pt = decrypt(algorithm.to_string(), "pw".to_string(), ct);
        assert_eq!(pt, "");
    }
}

#[test]
fn round_trip_multibyte_text() {
    let plaintext = "héllo wörld — ✓ ünïcode";
    for algorithm in ["crypt-aes-256-gcm", "crypt-aes-256-gcm-siv"] {
        let ct = encrypt(
            algorithm.to_string(),
            "pässword".to_string(),
            plaintext.to_string(),
        );
        let pt = decrypt(algorithm.to_string(), "pässword".to_string(), ct);
        assert_eq!(pt, plaintext);
    }
}

#[test]
fn round_trip_long_password_and_body() {
    // A password longer than 31 bytes exercises the truncating pad, and a
    // long plaintext wraps the body over several lines.
    let password = "a-very-long-password-over-31-bytes-in-total";
    let plaintext = "x".repeat(500);
    let ct = encrypt(
        "crypt-aes-256-gcm".to_string(),
        password.to_string(),
        plaintext.clone(),
    );
    let lines: Vec<&str> = ct.split('\n').collect();
    // header, at least two body lines, footer, trailing empty line
    assert!(lines.len() >= 5);
    for line in &lines[1..lines.len() - 2] {
        assert!(line.len() <= 72);
        assert!(!line.is_empty());
    }
    let pt = decrypt(
        "crypt-aes-256-gcm".to_string(),
        password.to_string(),
        ct,
    );
    assert_eq!(pt, plaintext);
}

#[test]
fn body_is_base64_of_sealed_bytes() {
    // "hello" seals to 5 + 16 bytes, whose base64 encoding has 28
    // characters: the body is encoded, not the raw bytes.
    let ct = encrypt(
        "crypt-aes-256-gcm".to_string(),
        "secret".to_string(),
        "hello".to_string(),
    );
    let lines: Vec<&str> = ct.split('\n').collect();
    assert_eq!(lines.len(), 4);
    assert_eq!(lines[1].len(), 28);
    assert!(lines[1]
        .chars()
        .all(|c| c.is_ascii_alphanumeric() || c == '+' || c == '/' || c == '='));
}

#[test]
fn encrypt_deterministic() {
    // Key and nonce are derived from the password alone, so sealing is
    // deterministic: the same inputs give the same envelope.
    let a = encrypt(
        "crypt-aes-256-gcm".to_string(),
        "secret".to_string(),
        "same text".to_string(),
    );
    let b = encrypt(
        "crypt-aes-256-gcm".to_string(),
        "secret".to_string(),
        "same text".to_string(),
    );
    assert_eq!(a, b);
}

#[test]
fn tamper_detection_flipped_body_bytes() {
    let ct = encrypt(
        "crypt-aes-256-gcm".to_string(),
        "secret".to_string(),
        "attack at dawn".to_string(),
    );
    let lines: Vec<&str> = ct.split('\n').collect();
    let body = lines[1];
    // Flip each byte of the body in turn to a different base64 character.
    for i in 0..body.len() {
        let mut flipped: Vec<char> = body.chars().collect();
        flipped[i] = if flipped[i] == 'A' { 'B' } else { 'A' };
        if flipped[i] == body.chars().nth(i).unwrap() {
            continue;
        }
        let new_body: String = flipped.into_iter().collect();
        let tampered = format!("{}\n{}\n{}\n", lines[0], new_body, lines[2]);
        let out = decrypt(
            "crypt-aes-256-gcm".to_string(),
            "secret".to_string(),
            tampered,
        );
        assert!(out.starts_with("error:decrypt:"), "index {}: {}", i, out);
    }
}

#[test]
fn wrong_password_fails() {
    for algorithm in ["crypt-aes-256-gcm", "crypt-aes-256-gcm-siv"] {
        let ct = encrypt(
            algorithm.to_string(),
            "right-password".to_string(),
            "top secret".to_string(),
        );
        let out = decrypt(algorithm.to_string(), "wrong-password".to_string(), ct);
        assert!(out.starts_with("error:decrypt: invalid decrypt"), "{}", out);
    }
}

#[test]
fn parser_tolerates_one_trailing_blank_line() {
    let ct = encrypt(
        "crypt-aes-256-gcm".to_string(),
        "secret".to_string(),
        "hello".to_string(),
    );
    // The envelope ends with a newline, so it already carries one trailing
    // blank line past the footer; it parses.
    assert!(ct.ends_with('\n'));
    let out = decrypt(
        "crypt-aes-256-gcm".to_string(),
        "secret".to_string(),
        ct.clone(),
    );
    assert_eq!(out, "hello");
    // Without that newline the footer is the very last line; it parses too.
    let strict = ct.strip_suffix('\n').unwrap().to_string();
    let out2 = decrypt(
        "crypt-aes-256-gcm".to_string(),
        "secret".to_string(),
        strict,
    );
    assert_eq!(out2, "hello");
    // A second trailing blank line is past the tolerance.
    let doubled = format!("{}\n", ct);
    let out3 = decrypt(
        "crypt-aes-256-gcm".to_string(),
        "secret".to_string(),
        doubled,
    );
    assert!(out3.starts_with("error:decrypt: invalid suffix"), "{}", out3);
}

#[test]
fn corrupted_prefix_and_suffix_fail() {
    let ct = encrypt(
        "crypt-aes-256-gcm".to_string(),
        "secret".to_string(),
        "hello".to_string(),
    );
    let lines: Vec<&str> = ct.split('\n').collect();
    let bad_prefix = format!("{}x\n{}\n{}\n", lines[0], lines[1], lines[2]);
    let out = decrypt(
        "crypt-aes-256-gcm".to_string(),
        "secret".to_string(),
        bad_prefix,
    );
    assert!(out.starts_with("error:decrypt: invalid prefix"), "{}", out);

    let bad_suffix = format!("{}\n{}\n{}x\n", lines[0], lines[1], lines[2]);
    let out2 = decrypt(
        "crypt-aes-256-gcm".to_string(),
        "secret".to_string(),
        bad_suffix,
    );
    assert!(out2.starts_with("error:decrypt: invalid suffix"), "{}", out2);

    let missing_suffix = format!("{}\n{}\n", lines[0], lines[1]);
    let out3 = decrypt(
        "crypt-aes-256-gcm".to_string(),
        "secret".to_string(),
        missing_suffix,
    );
    assert!(out3.starts_with("error:decrypt: invalid suffix"), "{}", out3);
}

#[test]
fn invalid_base64_body_fails() {
    let prefix = header_prefix("crypt-aes-256-gcm".to_string());
    let suffix = header_suffix("crypt-aes-256-gcm".to_string());
    let forged = format!("{}\n!!!!not base64!!!!\n{}\n", prefix, suffix);
    let out = decrypt(
        "crypt-aes-256-gcm".to_string(),
        "secret".to_string(),
        forged,
    );
    assert!(
        out.starts_with("error:decrypt: invalid base64 conversion"),
        "{}",
        out
    );
}

#[test]
fn bad_algorithm_markers_exact() {
    let e = encrypt(
        "bad-bad-bad".to_string(),
        "secret".to_string(),
        "hello".to_string(),
    );
    assert_eq!(e, "error:encrypt:invalid:bad-bad-bad");
    assert!(e.starts_with("error:encrypt:invalid:"));
    let d = decrypt(
        "bad-bad-bad".to_string(),
        "secret".to_string(),
        "whatever".to_string(),
    );
    assert_eq!(d, "error:decrypt:invalid:bad-bad-bad");
}

#[test]
fn empty_ciphertext_is_invalid_prefix() {
    let out = decrypt(
        "crypt-aes-256-gcm".to_string(),
        "secret".to_string(),
        "".to_string(),
    );
    assert_eq!(out, "error:decrypt: invalid prefix \"\"");
}

#[test]
fn wrong_password_marker_exact() {
    let ct = encrypt(
        "crypt-aes-256-gcm".to_string(),
        "right".to_string(),
        "hello".to_string(),
    );
    let out = decrypt("crypt-aes-256-gcm".to_string(), "wrong".to_string(), ct);
    assert_eq!(out, "error:decrypt: invalid decrypt \"aead::Error\"");
}

#[test]
fn invalid_output_text_is_reported_not_fatal() {
    // Seal bytes that are not valid UTF-8, using the same key and nonce
    // derivation, and wrap them in a well-formed envelope: decryption must
    // report the bad output text instead of aborting.
    let key_bytes = crypt::shared::pkcs7_pad32(b"secret");
    let cipher = aes_gcm::Aes256Gcm::new_from_slice(&key_bytes).unwrap();
    let nonce: aes_gcm::Nonce<aes_gcm::aead::consts::U12> =
        (&key_bytes[..12]).try_into().unwrap();
    let sealed = cipher.encrypt(&nonce, &[0xffu8, 0xfe, 0x00][..]).unwrap();
    let body = base64::engine::general_purpose::STANDARD.encode(&sealed);
    let forged = format!(
        "{}\n{}\n{}\n",
        header_prefix("crypt-aes-256-gcm".to_string()),
        body,
        header_suffix("crypt-aes-256-gcm".to_string())
    );
    let out = decrypt(
        "crypt-aes-256-gcm".to_string(),
        "secret".to_string(),
        forged,
    );
    assert_eq!(out, "error:decrypt: invalid output text");
}

#[test]
fn independently_built_envelope_decrypts() {
    // An envelope assembled outside the library, from the same primitives,
    // is wire-compatible with `decrypt`.
    let key_bytes = crypt::shared::pkcs7_pad32(b"pw");
    let cipher = aes_gcm::Aes256Gcm::new_from_slice(&key_bytes).unwrap();
    let nonce: aes_gcm::Nonce<aes_gcm::aead::consts::U12> =
        (&key_bytes[..12]).try_into().unwrap();
    let sealed = cipher.encrypt(&nonce, b"over the wire".as_ref()).unwrap();
    let body = base64::engine::general_purpose::STANDARD.encode(&sealed);
    let forged = format!(
        "{}\n{}\n{}\n",
        header_prefix("crypt-aes-256-gcm".to_string()),
        body,
        header_suffix("crypt-aes-256-gcm".to_string())
    );
    let out = decrypt("crypt-aes-256-gcm".to_string(), "pw".to_string(), forged);
    assert_eq!(out, "over the wire");
    // And the library's own envelope matches it byte for byte.
    let own = encrypt(
        "crypt-aes-256-gcm".to_string(),
        "pw".to_string(),
        "over the wire".to_string(),
    );
    let lines: Vec<&str> = own.split('\n').collect();
    assert_eq!(lines[1], body);
}
