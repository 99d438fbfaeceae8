//! Character and string helpers shared by the parser and the formatters:
//! conversion between `&str` and `Vec<char>`, decimal digit classification,
//! and formatting of unsigned integers as decimal digit sequences.

use vstd::prelude::*;

verus! {

/// True for the ten ASCII decimal digit characters.
pub open spec fn is_digit_char(c: char) -> bool {
    '0' <= c && c <= '9'
}

/// Numeric value of an ASCII decimal digit character.
pub open spec fn digit_val(c: char) -> int
    recommends
        is_digit_char(c),
{
    c as int - '0' as int
}

/// The ASCII character for one decimal digit.
pub open spec fn digit_char(d: int) -> char
    recommends
        0 <= d < 10,
{
    if d == 0 {
        '0'
    } else if d == 1 {
        '1'
    } else if d == 2 {
        '2'
    } else if d == 3 {
        '3'
    } else if d == 4 {
        '4'
    } else if d == 5 {
        '5'
    } else if d == 6 {
        '6'
    } else if d == 7 {
        '7'
    } else if d == 8 {
        '8'
    } else {
        '9'
    }
}

/// The usual decimal rendering of `n`, most significant digit first, with no
/// leading zeros except for `n == 0` itself.
pub open spec fn dec_digits(n: nat) -> Seq<char>
    decreases n,
{
    if n < 10 {
        seq![digit_char(n as int)]
    } else {
        dec_digits(n / 10) + seq![digit_char((n % 10) as int)]
    }
}

/// Numeric value of an ASCII decimal digit character, executable form.
pub fn digit_value(c: char) -> (d: u64)
    requires
        is_digit_char(c),
    ensures
        d == digit_val(c),
        d <= 9,
{
    ((c as u32) - ('0' as u32)) as u64
}

/// Executable digit test, equal to the spec-level classification.
pub fn is_digit(c: char) -> (r: bool)
    ensures
        r == is_digit_char(c),
{
    '0' <= c && c <= '9'
}

/// Collects the characters of a string slice into a vector, preserving order.
pub fn str_to_chars(s: &str) -> (v: Vec<char>)
    ensures
        v@ == s@,
{
    let n: usize = s.unicode_len();
    let mut v: Vec<char> = Vec::new();
    let mut i: usize = 0;
    proof {
        assert(v@ =~= s@.subrange(0, 0));
    }
    while i < n
        invariant
            i <= n,
            n == s@.len(),
            v@ == s@.subrange(0, i as int),
        decreases n - i,
    {
        v.push(s.get_char(i));
        proof {
            assert(v@ =~= s@.subrange(0, i as int + 1));
        }
        i = i + 1;
    }
    proof {
        assert(v@ =~= s@);
    }
    v
}

/// Relies on `String`'s `FromIterator<char>`: collecting an iterator of
/// characters yields the string of exactly those characters in order.
#[verifier::external_body]
pub fn string_from_chars(v: &Vec<char>) -> (s: String)
    ensures
        s@ == v@,
{
    v.iter().collect()
}

/// Executable counterpart of `digit_char` for one digit.
pub fn digit_to_char(d: u64) -> (c: char)
    requires
        d < 10,
    ensures
        c == digit_char(d as int),
{
    if d == 0 {
        '0'
    } else if d == 1 {
        '1'
    } else if d == 2 {
        '2'
    } else if d == 3 {
        '3'
    } else if d == 4 {
        '4'
    } else if d == 5 {
        '5'
    } else if d == 6 {
        '6'
    } else if d == 7 {
        '7'
    } else if d == 8 {
        '8'
    } else {
        '9'
    }
}

/// Appends the decimal rendering of `n` to `out`.
pub fn push_dec_u64(out: &mut Vec<char>, n: u64)
    ensures
        final (out)@ == old(out)@ + dec_digits(n as nat),
{
    let mut digits: Vec<char> = Vec::new();
    let mut m: u64 = n;
    let ghost pre0 = digits@;
    let d0: u64 = m % 10;
    digits.insert(0, digit_to_char(d0));
    proof {
        assert(digits@ =~= seq![digit_char(d0 as int)] + pre0);
        assert(digits@ =~= seq![digit_char((n % 10) as int)]);
        if n >= 10 {
            assert(dec_digits(n as nat) == dec_digits((n / 10) as nat) + seq![
                digit_char((n % 10) as int),
            ]);
        }
    }
    m = m / 10;
    while m > 0
        invariant
            m > 0 ==> dec_digits(n as nat) == dec_digits(m as nat) + digits@,
            m == 0 ==> dec_digits(n as nat) == digits@,
        decreases m,
    {
        let ghost pre = digits@;
        let ghost mm = m as nat;
        let d: u64 = m % 10;
        digits.insert(0, digit_to_char(d));
        proof {
            assert(digits@ =~= seq![digit_char(d as int)] + pre);
            if mm >= 10 {
                assert(dec_digits(mm) == dec_digits(mm / 10) + seq![digit_char((mm % 10) as int)]);
                assert(dec_digits(mm / 10) + (seq![digit_char((mm % 10) as int)] + pre)
                    =~= dec_digits(mm) + pre);
            } else {
                assert(dec_digits(mm) == seq![digit_char(mm as int)]);
            }
        }
        m = m / 10;
    }
    let ghost start = out@;
    let mut j: usize = 0;
    proof {
        assert(out@ =~= start + digits@.subrange(0, 0));
    }
    while j < digits.len()
        invariant
            j <= digits@.len(),
            dec_digits(n as nat) == digits@,
            out@ == start + digits@.subrange(0, j as int),
        decreases digits@.len() - j,
    {
        out.push(digits[j]);
        proof {
            assert(out@ =~= start + digits@.subrange(0, j as int + 1));
        }
        j = j + 1;
    }
    proof {
        assert(digits@.subrange(0, digits@.len() as int) =~= digits@);
        assert(out@ =~= start + digits@);
    }
}

} // verus!
