//! Decimal text for integers: rendering `i64` values and parsing them back.

use vstd::prelude::*;
use vstd::string::StringExecFns;

verus! {

/// The decimal digit character for a value below ten.
pub open spec fn dec_digit(d: int) -> char {
    if d == 0 {
        '0'
    } else if d == 1 {
        '1'
    } else if d == 2 {
        '2'
    } else if d == 3 {
        '3'
    } else if d == 4 {
        '4'
    } else if d == 5 {
        '5'
    } else if d == 6 {
        '6'
    } else if d == 7 {
        '7'
    } else if d == 8 {
        '8'
    } else {
        '9'
    }
}

/// The decimal text of a natural number, most significant digit first.
pub open spec fn dec_nat(n: nat) -> Seq<char>
    decreases n,
{
    if n < 10 {
        seq![dec_digit(n as int)]
    } else {
        dec_nat(n / 10) + seq![dec_digit((n % 10) as int)]
    }
}

/// The decimal text of an integer: a leading '-' for negative values.
pub open spec fn dec_int(n: int) -> Seq<char> {
    if n >= 0 {
        dec_nat(n as nat)
    } else {
        seq!['-'] + dec_nat((-n) as nat)
    }
}

fn digit_str(d: u64) -> (s: &'static str)
    requires
        d < 10,
    ensures
        s@ == seq![dec_digit(d as int)],
{
    let s: &'static str = match d {
        0 => "0",
        1 => "1",
        2 => "2",
        3 => "3",
        4 => "4",
        5 => "5",
        6 => "6",
        7 => "7",
        8 => "8",
        _ => "9",
    };
    proof {
        reveal_strlit("0");
        reveal_strlit("1");
        reveal_strlit("2");
        reveal_strlit("3");
        reveal_strlit("4");
        reveal_strlit("5");
        reveal_strlit("6");
        reveal_strlit("7");
        reveal_strlit("8");
        reveal_strlit("9");
        assert(s@ =~= seq![dec_digit(d as int)]);
    }
    s
}

/// Renders a natural number in decimal.
pub fn u64_string(n: u64) -> (s: String)
    ensures
        s@ == dec_nat(n as nat),
    decreases n,
{
    let d: u64 = n % 10;
    let ds: &'static str = digit_str(d);
    if n < 10 {
        let r = String::from_str(ds);
        proof {
            assert(r@ =~= dec_nat(n as nat));
        }
        r
    } else {
        let prefix = u64_string(n / 10);
        let r = prefix.concat(ds);
        proof {
            assert(r@ =~= dec_nat(n as nat));
        }
        r
    }
}

/// Renders a signed integer in decimal, with a leading '-' when negative.
pub fn i64_string(n: i64) -> (s: String)
    ensures
        s@ == dec_int(n as int),
{
    if n >= 0 {
        u64_string(n as u64)
    } else {
        let wide: i128 = n as i128;
        let m: u64 = (-wide) as u64;
        let sign = String::from_str("-");
        proof {
            reveal_strlit("-");
        }
        let digits = u64_string(m);
        let r = sign.concat(digits.as_str());
        proof {
            assert(r@ =~= dec_int(n as int));
        }
        r
    }
}

/// Whether a character is a decimal digit.
pub open spec fn is_digit_char(c: char) -> bool {
    '0' <= c && c <= '9'
}

/// The numeric value of a digit character.
pub open spec fn digit_val(c: char) -> int {
    c as int - '0' as int
}

/// Whether every character of the text is a decimal digit.
pub open spec fn all_digits(s: Seq<char>) -> bool {
    forall|i: int| 0 <= i < s.len() ==> is_digit_char(s[i])
}

/// The value of a digit string, most significant digit first.
pub open spec fn dec_val(s: Seq<char>) -> int
    decreases s.len(),
{
    if s.len() == 0 {
        0
    } else {
        dec_val(s.drop_last()) * 10 + digit_val(s.last())
    }
}

/// The digits of an integer literal, past an optional leading sign.
pub open spec fn digits_part(s: Seq<char>) -> Seq<char> {
    if s.len() > 0 && (s[0] == '-' || s[0] == '+') {
        s.subrange(1, s.len() as int)
    } else {
        s
    }
}

/// Whether the literal carries a '-' sign.
pub open spec fn is_negative_literal(s: Seq<char>) -> bool {
    s.len() > 0 && s[0] == '-'
}

/// The signed value of an integer literal.
pub open spec fn literal_value(s: Seq<char>) -> int {
    if is_negative_literal(s) {
        -dec_val(digits_part(s))
    } else {
        dec_val(digits_part(s))
    }
}

/// Whether the text is an integer literal that fits in an `i64`:
/// an optional sign, then at least one digit, value within range.
pub open spec fn is_i64_literal(s: Seq<char>) -> bool {
    &&& digits_part(s).len() > 0
    &&& all_digits(digits_part(s))
    &&& i64::MIN <= literal_value(s) <= i64::MAX
}

proof fn lemma_dec_val_nonneg(s: Seq<char>)
    requires
        all_digits(s),
    ensures
        dec_val(s) >= 0,
    decreases s.len(),
{
    if s.len() > 0 {
        assert(all_digits(s.drop_last()));
        lemma_dec_val_nonneg(s.drop_last());
    }
}

proof fn lemma_dec_val_step(s: Seq<char>, i: int)
    requires
        0 <= i < s.len(),
    ensures
        dec_val(s.subrange(0, i + 1)) == dec_val(s.subrange(0, i)) * 10 + digit_val(s[i]),
{
    let p = s.subrange(0, i + 1);
    assert(p.drop_last() =~= s.subrange(0, i));
    assert(p.last() == s[i]);
}

proof fn lemma_dec_val_prefix_le(s: Seq<char>, i: int)
    requires
        all_digits(s),
        0 <= i <= s.len(),
    ensures
        dec_val(s.subrange(0, i)) <= dec_val(s),
    decreases s.len() - i,
{
    if i == s.len() {
        assert(s.subrange(0, i) =~= s);
    } else {
        lemma_dec_val_step(s, i);
        assert(all_digits(s.subrange(0, i)));
        lemma_dec_val_nonneg(s.subrange(0, i));
        lemma_dec_val_prefix_le(s, i + 1);
    }
}

/// Parses an integer literal as Rust's own integer parser accepts it:
/// an optional '+' or '-' sign followed by decimal digits. Returns
/// `None` exactly when the text is malformed or out of `i64` range.
pub fn parse_i64(s: &str) -> (r: Option<i64>)
    ensures
        r is Some <==> is_i64_literal(s@),
        is_i64_literal(s@) ==> r == Some(literal_value(s@) as i64),
{
    let len: usize = s.unicode_len();
    let mut start: usize = 0;
    let mut negative: bool = false;
    if len > 0 {
        let c0: char = s.get_char(0);
        if c0 == '-' {
            negative = true;
            start = 1;
        } else if c0 == '+' {
            start = 1;
        }
    }
    let ghost digits = digits_part(s@);
    proof {
        assert(digits =~= s@.subrange(start as int, len as int));
    }
    if start == len {
        // no digits at all
        return None;
    }
    // magnitude cap: one more than i64::MAX, the magnitude of i64::MIN
    let cap: u128 = 9223372036854775808;
    let mut acc: u128 = 0;
    let mut i: usize = start;
    while i < len
        invariant
            start <= i <= len,
            start < len,
            len == s@.len(),
            digits == s@.subrange(start as int, len as int),
            digits == digits_part(s@),
            negative == is_negative_literal(s@),
            acc <= cap,
            cap == 9223372036854775808,
            all_digits(digits.subrange(0, i - start)),
            acc == dec_val(digits.subrange(0, i - start)),
        decreases len - i,
    {
        let c: char = s.get_char(i);
        let cv: u32 = c as u32;
        if cv < 48 || cv > 57 {
            proof {
                assert(digits[i - start] == c);
                assert(!is_digit_char(digits[i - start]));
                assert(!all_digits(digits));
            }
            return None;
        }
        let d: u128 = (cv - 48) as u128;
        proof {
            assert(digits[i - start] == c);
            assert(is_digit_char(c));
            assert(d == digit_val(c));
            lemma_dec_val_step(digits, i - start);
        }
        let next: u128 = acc * 10 + d;
        proof {
            assert(all_digits(digits.subrange(0, i - start + 1)));
        }
        if next > cap {
            proof {
                // every longer prefix is at least as large, so the value
                // cannot fit in an i64 either way
                if all_digits(digits) {
                    lemma_dec_val_prefix_le(digits, i - start + 1);
                }
            }
            return None;
        }
        acc = next;
        i = i + 1;
    }
    proof {
        assert(digits.subrange(0, len - start) =~= digits);
        lemma_dec_val_nonneg(digits);
    }
    if negative {
        if acc == 0 {
            Some(0)
        } else {
            let wide: i128 = -(acc as i128);
            Some(wide as i64)
        }
    } else {
        if acc <= 9223372036854775807 {
            Some(acc as i64)
        } else {
            None
        }
    }
}

} // verus!
