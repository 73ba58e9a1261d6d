//! Decimal formatting of indices for error markers.
use vstd::prelude::*;
use vstd::string::StringExecFns;

verus! {

/// The character for a single decimal digit.
pub open spec fn digit_char(d: nat) -> char {
    if d == 0 {
        '0'
    } else if d == 1 {
        '1'
    } else if d == 2 {
        '2'
    } else if d == 3 {
        '3'
    } else if d == 4 {
        '4'
    } else if d == 5 {
        '5'
    } else if d == 6 {
        '6'
    } else if d == 7 {
        '7'
    } else if d == 8 {
        '8'
    } else {
        '9'
    }
}

/// The usual decimal notation of a natural number, most significant digit
/// first, with no leading zeros (except for zero itself).
pub open spec fn decimal(n: nat) -> Seq<char>
    decreases n,
{
    if n < 10 {
        seq![digit_char(n)]
    } else {
        decimal(n / 10) + seq![digit_char(n % 10)]
    }
}

/// The digits of `v`, read back to front.
spec fn rev_digit_chars(v: Seq<u8>) -> Seq<char> {
    Seq::new(v.len(), |i: int| digit_char(v[v.len() - 1 - i] as nat))
}

/// A one-character string for the digit `d`.
fn digit_str(d: u8) -> (r: &'static str)
    requires
        d < 10,
    ensures
        r@ == seq![digit_char(d as nat)],
{
    proof {
        reveal_strlit("0");
        reveal_strlit("1");
        reveal_strlit("2");
        reveal_strlit("3");
        reveal_strlit("4");
        reveal_strlit("5");
        reveal_strlit("6");
        reveal_strlit("7");
        reveal_strlit("8");
        reveal_strlit("9");
    }
    let r = if d == 0 {
        "0"
    } else if d == 1 {
        "1"
    } else if d == 2 {
        "2"
    } else if d == 3 {
        "3"
    } else if d == 4 {
        "4"
    } else if d == 5 {
        "5"
    } else if d == 6 {
        "6"
    } else if d == 7 {
        "7"
    } else if d == 8 {
        "8"
    } else {
        "9"
    };
    proof {
        assert(r@ =~= seq![digit_char(d as nat)]);
    }
    r
}

/// Render an index in decimal.
pub fn usize_to_decimal(n: usize) -> (r: String)
    ensures
        r@ == decimal(n as nat),
{
    let mut buf: Vec<u8> = Vec::new();
    let mut m: usize = n;
    loop
        invariant_except_break
            decimal(n as nat) == decimal(m as nat) + rev_digit_chars(buf@),
            forall|k: int| 0 <= k < buf@.len() ==> buf@[k] < 10,
        ensures
            decimal(n as nat) == rev_digit_chars(buf@),
            forall|k: int| 0 <= k < buf@.len() ==> buf@[k] < 10,
        decreases m,
    {
        let ghost prev = buf@;
        let d: u8 = (m % 10) as u8;
        buf.push(d);
        proof {
            assert(rev_digit_chars(buf@) =~= seq![digit_char(d as nat)] + rev_digit_chars(prev));
        }
        if m < 10 {
            break ;
        }
        m = m / 10;
    }
    let ghost digits = buf@;
    let mut r = String::new();
    let mut j: usize = buf.len();
    while j > 0
        invariant
            j <= buf.len(),
            buf@ == digits,
            forall|k: int| 0 <= k < digits.len() ==> digits[k] < 10,
            r@ == rev_digit_chars(digits).take(digits.len() as int - j as int),
        decreases j,
    {
        j = j - 1;
        let s = digit_str(buf[j]);
        r.append(s);
        proof {
            assert(r@ =~= rev_digit_chars(digits).take(digits.len() as int - j as int));
        }
    }
    proof {
        assert(rev_digit_chars(digits).take(digits.len() as int) =~= rev_digit_chars(digits));
    }
    r
}

} // verus!
