//! The algorithm registry, key-material padding, and header formatting.
use vstd::prelude::*;
use vstd::string::{StrSliceExecFns, StringExecFns};

verus! {

broadcast use vstd::array::group_array_axioms;

/// The size of a MIME encrypted line.
pub const CHUNK_SIZE: usize = 72;

/// The available algorithm identifiers, in registry order.
pub open spec fn algorithms() -> Seq<Seq<char>> {
    seq!["crypt-aes-256-gcm"@, "crypt-aes-256-gcm-siv"@]
}

/// Whether `s` is a registered algorithm identifier.
pub open spec fn is_valid_algorithm_spec(s: Seq<char>) -> bool {
    s == "crypt-aes-256-gcm"@ || s == "crypt-aes-256-gcm-siv"@
}

/// The registry entry at `i`.
pub fn algorithm_at(i: usize) -> (r: &'static str)
    requires
        i < algorithms().len(),
    ensures
        r@ == algorithms()[i as int],
{
    if i == 0 {
        "crypt-aes-256-gcm"
    } else {
        "crypt-aes-256-gcm-siv"
    }
}

/// Is this a valid algorithm id?
///
/// Although this is an O(N) search, that is okay because
/// the number of algorithms is very small.
pub fn is_valid_algorithm(provisional: String) -> (r: bool)
    ensures
        r == is_valid_algorithm_spec(provisional@),
{
    let a0 = String::from_str("crypt-aes-256-gcm");
    if provisional.eq(&a0) {
        return true;
    }
    let a1 = String::from_str("crypt-aes-256-gcm-siv");
    if provisional.eq(&a1) {
        return true;
    }
    false
}

/// The 32-byte key material derived from a password: the password's first
/// bytes (at most 31 of them), the rest filled with a constant byte that is
/// the copied length, or zero when the password was truncated.
pub open spec fn pad32_spec(s: Seq<u8>) -> Seq<u8> {
    let n = if s.len() > 31 {
        31int
    } else {
        s.len() as int
    };
    let fill = if s.len() > 31 {
        0u8
    } else {
        s.len() as u8
    };
    Seq::new(32, |i: int| if i < n { s[i] } else { fill })
}

/// PKCS7-style padding for a 32 byte array.
///
/// This is not standards-compliant PKCS7: the fill byte doubles as an
/// implicit length marker and becomes zero when the password is truncated.
/// The scheme is kept bit-for-bit for wire compatibility.
pub fn pkcs7_pad32(bytes: &[u8]) -> (r: [u8; 32])
    ensures
        r@ == pad32_spec(bytes@),
{
    let mut n = bytes.len();
    let mut m = n;
    if n > 31 {
        m = 0;
        n = 31;
    }
    let mut arr: [u8; 32] = [(m as u8);32];
    let mut i: usize = 0;
    while i < n
        invariant
            i <= n <= 31,
            n <= bytes@.len(),
            n == (if bytes@.len() > 31 {
                31int
            } else {
                bytes@.len() as int
            }),
            m == (if bytes@.len() > 31 {
                0int
            } else {
                bytes@.len() as int
            }),
            arr@.len() == 32,
            forall|k: int| 0 <= k < i ==> arr@[k] == bytes@[k],
            forall|k: int| i <= k < 32 ==> arr@[k] == m as u8,
        decreases n - i,
    {
        arr[i] = bytes[i];
        i += 1;
    }
    proof {
        assert(arr@ =~= pad32_spec(bytes@));
    }
    arr
}

/// The key material for a password: its UTF-8 bytes, padded to 32 bytes.
pub open spec fn key_of(pass: Seq<char>) -> Seq<u8> {
    pad32_spec(vstd::utf8::encode_utf8(pass))
}

/// The nonce for a password: the first 12 bytes of the key material.
pub open spec fn nonce_of(pass: Seq<char>) -> Seq<u8> {
    key_of(pass).take(12)
}

/// Build an error marker `head` + `line` + closing quote.
pub fn quoted_marker(head: &'static str, line: &str) -> (r: String)
    ensures
        r@ == head@ + line@ + "\""@,
{
    let mut r = String::from_str(head);
    r.append(line);
    r.append("\"");
    r
}

/// A row of `n` dash characters (empty when `n` is negative).
pub open spec fn dashes(n: int) -> Seq<char> {
    Seq::new(
        if n < 0 {
            0nat
        } else {
            n as nat
        },
        |i: int| '-',
    )
}

/// The bordered title line for `alg` and `kind`: a left dash group, the
/// title `alg kind` with one space on each side, and a right dash group.
/// The right group takes half of the width left beside the title and its
/// two surrounding spaces; the left group gets one more dash when the
/// title's length is odd.
pub open spec fn header_subject_spec(alg: Seq<char>, kind: Seq<char>) -> Seq<char> {
    let title = alg + seq![' '] + kind;
    let len = title.len() as int;
    let rw = (CHUNK_SIZE - (len + 2)) / 2;
    let lw = if len % 2 == 1 {
        rw + 1
    } else {
        rw
    };
    dashes(lw) + seq![' '] + title + seq![' '] + dashes(rw)
}

/// The header line above the body.
pub open spec fn header_prefix_spec(alg: Seq<char>) -> Seq<char> {
    header_subject_spec(alg, "prefix"@)
}

/// The footer line below the body.
pub open spec fn header_suffix_spec(alg: Seq<char>) -> Seq<char> {
    header_subject_spec(alg, "suffix"@)
}

/// A string of `n` dashes.
fn dashes_str(n: usize) -> (r: String)
    ensures
        r@ == dashes(n as int),
{
    let mut r = String::new();
    let mut i: usize = 0;
    while i < n
        invariant
            i <= n,
            r@ == dashes(i as int),
        decreases n - i,
    {
        r.append("-");
        proof {
            reveal_strlit("-");
            assert(r@ =~= dashes(i as int + 1));
        }
        i += 1;
    }
    r
}

/// Create the header subject for the prefix and suffix.
///
/// # Arguments
/// * `algorithm`: The algorithm identifier.
/// * `kind`: Which kind of title: prefix or suffix?
///
/// # Returns
/// The header subject string.
pub fn header_subject(algorithm: String, kind: String) -> (r: String)
    requires
        kind@ == "prefix"@ || kind@ == "suffix"@,
    ensures
        is_valid_algorithm_spec(algorithm@) ==> r@ == header_subject_spec(algorithm@, kind@),
        !is_valid_algorithm_spec(algorithm@) ==> r@ == "error:header:invalid-algorithm"@,
{
    if !is_valid_algorithm(algorithm.clone()) {
        return String::from_str("error:header:invalid-algorithm");
    }
    proof {
        reveal_strlit(" ");
        reveal_strlit("crypt-aes-256-gcm");
        reveal_strlit("crypt-aes-256-gcm-siv");
        reveal_strlit("prefix");
        reveal_strlit("suffix");
        assert(" "@ =~= seq![' ']);
    }
    let mut title = algorithm;
    title.append(" ");
    title.append(kind.as_str());
    let len = title.as_str().unicode_len();
    assert(len <= 28);
    let iw = len + 2;
    let rw = (CHUNK_SIZE - iw) / 2;
    let mut lw = rw;
    if len % 2 == 1 {
        lw = lw + 1;
    }
    let mut header = dashes_str(lw);
    let right = dashes_str(rw);
    header.append(" ");
    header.append(title.as_str());
    header.append(" ");
    header.append(right.as_str());
    proof {
        assert(header@ =~= dashes(lw as int) + seq![' '] + title@ + seq![' '] + dashes(rw as int));
        assert(header@ == header_subject_spec(algorithm@, kind@));
    }
    header
}

/// Header formatting is deterministic and stable: the header line is a
/// pure function of the identifier alone, so any two results obtained for
/// the same identifier are byte-identical.
pub proof fn lemma_header_deterministic(alg: Seq<char>, first: Seq<char>, second: Seq<char>)
    requires
        first == header_prefix_spec(alg),
        second == header_prefix_spec(alg),
    ensures
        first == second,
{
}

/// Return the header prefix.
///
/// # Arguments
/// * `algorithm`: The algorithm identifier.
///
/// # Returns
/// The header prefix.
pub fn header_prefix(algorithm: String) -> (r: String)
    ensures
        is_valid_algorithm_spec(algorithm@) ==> r@ == header_prefix_spec(algorithm@),
        !is_valid_algorithm_spec(algorithm@) ==> r@ == "error:header:invalid-algorithm"@,
{
    header_subject(algorithm, String::from_str("prefix"))
}

/// Return the header suffix.
///
/// # Arguments
/// * `algorithm`: The algorithm identifier.
///
/// # Returns
/// The header suffix.
pub fn header_suffix(algorithm: String) -> (r: String)
    ensures
        is_valid_algorithm_spec(algorithm@) ==> r@ == header_suffix_spec(algorithm@),
        !is_valid_algorithm_spec(algorithm@) ==> r@ == "error:header:invalid-algorithm"@,
{
    header_subject(algorithm, String::from_str("suffix"))
}

} // verus!
