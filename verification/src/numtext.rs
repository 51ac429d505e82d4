//! Decimal text: rendering integers as decimal strings and parsing
//! signed decimal strings back, each against an exact mathematical
//! model over sequences of characters.

use vstd::prelude::*;

verus! {

/// The character for a single decimal digit value.
pub open spec fn digit_char(d: nat) -> char
    recommends
        d < 10,
{
    if d == 0 {
        '0'
    } else if d == 1 {
        '1'
    } else if d == 2 {
        '2'
    } else if d == 3 {
        '3'
    } else if d == 4 {
        '4'
    } else if d == 5 {
        '5'
    } else if d == 6 {
        '6'
    } else if d == 7 {
        '7'
    } else if d == 8 {
        '8'
    } else {
        '9'
    }
}

/// The decimal digits of a natural number, most significant first,
/// with no leading zeros (a single `'0'` for zero).
pub open spec fn dec_nat(n: nat) -> Seq<char>
    decreases n,
{
    if n < 10 {
        seq![digit_char(n)]
    } else {
        dec_nat(n / 10) + seq![digit_char(n % 10)]
    }
}

/// The decimal text of an integer: a minus sign for negatives, then digits.
pub open spec fn dec_int(v: int) -> Seq<char> {
    if v < 0 {
        seq!['-'] + dec_nat((-v) as nat)
    } else {
        dec_nat(v as nat)
    }
}

/// Whether a character is one of `'0'` through `'9'`.
pub open spec fn is_dec_digit(c: char) -> bool {
    48 <= c as int <= 57
}

/// The numeric value of a decimal digit character.
pub open spec fn digit_val(c: char) -> nat
    recommends
        is_dec_digit(c),
{
    (c as int - 48) as nat
}

/// Whether every character of the sequence is a decimal digit.
pub open spec fn all_dec_digits(s: Seq<char>) -> bool {
    forall|i: int| 0 <= i < s.len() ==> is_dec_digit(s[i])
}

/// The natural number denoted by a sequence of decimal digits
/// (most significant first; the empty sequence denotes zero).
pub open spec fn dec_val(s: Seq<char>) -> nat
    decreases s.len(),
{
    if s.len() == 0 {
        0
    } else {
        dec_val(s.drop_last()) * 10 + digit_val(s.last())
    }
}

/// The signed integer a piece of text denotes if it is a well-formed
/// base-10 integer that fits in `i64`: an optional `+` or `-` sign,
/// then at least one digit, nothing else.
pub open spec fn parse_i64_spec(s: Seq<char>) -> Option<i64> {
    let digits = if s.len() > 0 && (s[0] == '-' || s[0] == '+') {
        s.skip(1)
    } else {
        s
    };
    let neg = s.len() > 0 && s[0] == '-';
    if digits.len() > 0 && all_dec_digits(digits) {
        let m = dec_val(digits) as int;
        let v = if neg {
            -m
        } else {
            m
        };
        if i64::MIN <= v <= i64::MAX {
            Some(v as i64)
        } else {
            None
        }
    } else {
        None
    }
}

/// Relies on `String::from_iter` (std's `FromIterator<char>` impl):
/// the string of exactly the given characters, in order.
#[verifier::external_body]
pub fn chars_to_string(v: Vec<char>) -> (r: String)
    ensures
        r@ == v@,
{
    String::from_iter(v)
}

/// Appends the decimal digits of `n` to `buf`.
pub fn push_dec_u128(buf: &mut Vec<char>, n: u128)
    ensures
        final(buf)@ == old(buf)@ + dec_nat(n as nat),
    decreases n,
{
    if n >= 10 {
        proof {
            assert(n / 10 < n) by (nonlinear_arith)
                requires
                    n >= 10,
            ;
        }
        push_dec_u128(buf, n / 10);
    }
    let d: u128 = n % 10;
    let c: char = if d == 0 {
        '0'
    } else if d == 1 {
        '1'
    } else if d == 2 {
        '2'
    } else if d == 3 {
        '3'
    } else if d == 4 {
        '4'
    } else if d == 5 {
        '5'
    } else if d == 6 {
        '6'
    } else if d == 7 {
        '7'
    } else if d == 8 {
        '8'
    } else {
        '9'
    };
    buf.push(c);
    proof {
        assert(buf@ =~= old(buf)@ + dec_nat(n as nat));
    }
}

/// Appends the decimal text of `v` (sign included) to `buf`.
pub fn push_dec_i128(buf: &mut Vec<char>, v: i128)
    requires
        v > i128::MIN,
    ensures
        final(buf)@ == old(buf)@ + dec_int(v as int),
{
    if v < 0 {
        buf.push('-');
        push_dec_u128(buf, (-v) as u128);
        assert(buf@ =~= old(buf)@ + dec_int(v as int));
    } else {
        push_dec_u128(buf, v as u128);
    }
}

/// The decimal text of an `i64` as a `String`.
pub fn i64_to_dec(v: i64) -> (r: String)
    ensures
        r@ == dec_int(v as int),
{
    let mut buf: Vec<char> = Vec::new();
    push_dec_i128(&mut buf, v as i128);
    chars_to_string(buf)
}

/// Appending a digit multiplies the denoted value by ten and adds the digit.
pub proof fn lemma_dec_val_push(s: Seq<char>, c: char)
    ensures
        dec_val(s.push(c)) == dec_val(s) * 10 + digit_val(c),
{
    assert(s.push(c).drop_last() =~= s);
    assert(s.push(c).last() == c);
}

/// Parses a whole string as a signed base-10 `i64`, exactly as
/// `parse_i64_spec` describes: `None` on a malformed number or one out
/// of the `i64` range.
pub fn parse_i64(s: &str) -> (r: Option<i64>)
    ensures
        r == parse_i64_spec(s@),
{
    let n = s.unicode_len();
    let mut start: usize = 0;
    let mut neg = false;
    if n > 0 {
        let c0 = s.get_char(0);
        if c0 == '-' {
            neg = true;
            start = 1;
        } else if c0 == '+' {
            start = 1;
        }
    }
    let ghost digits = if start == 1 {
        s@.skip(1)
    } else {
        s@
    };
    proof {
        assert(digits =~= s@.subrange(start as int, n as int));
    }
    if start >= n {
        assert(digits.len() == 0);
        return None;
    }
    let mut mag: u64 = 0;
    let mut too_big = false;
    let mut j = start;
    while j < n
        invariant
            start <= j <= n,
            n == s@.len(),
            start == 0 || start == 1,
            start == 1 ==> n > 0 && (s@[0] == '-' || s@[0] == '+'),
            start == 0 ==> !(n > 0 && (s@[0] == '-' || s@[0] == '+')),
            neg <==> (n > 0 && s@[0] == '-'),
            forall|k: int| start <= k < j ==> is_dec_digit(s@[k]),
            !too_big ==> mag as nat == dec_val(s@.subrange(start as int, j as int)) && mag
                <= 9223372036854775808u64,
            too_big ==> dec_val(s@.subrange(start as int, j as int)) > 9223372036854775808,
        decreases n - j,
    {
        let c = s.get_char(j);
        let u = c as u32;
        if u < 48 || u > 57 {
            proof {
                let dseq = if start == 1 {
                    s@.skip(1)
                } else {
                    s@
                };
                assert(dseq =~= s@.subrange(start as int, n as int));
                assert(0 <= j - start < dseq.len());
                assert(dseq[j - start] == s@[j as int]);
                assert(!is_dec_digit(s@[j as int]));
                assert(!all_dec_digits(dseq));
            }
            return None;
        }
        let d: u64 = (u - 48) as u64;
        proof {
            lemma_dec_val_push(s@.subrange(start as int, j as int), c);
            assert(s@.subrange(start as int, j as int).push(c) =~= s@.subrange(
                start as int,
                j + 1 as int,
            ));
            assert(digit_val(c) == d as nat);
        }
        if too_big {
            // already beyond any i64; the digits only extend the value
        } else if mag > 922337203685477580 {
            too_big = true;
        } else {
            let m2 = mag * 10 + d;
            if m2 > 9223372036854775808 {
                too_big = true;
            } else {
                mag = m2;
            }
        }
        j += 1;
    }
    proof {
        assert(digits == s@.subrange(start as int, n as int));
        assert(all_dec_digits(digits)) by {
            assert(forall|k: int| 0 <= k < digits.len() ==> digits[k] == s@[k + start]);
        }
    }
    if too_big {
        return None;
    }
    if neg {
        if mag == 9223372036854775808 {
            Some(i64::MIN)
        } else {
            Some(-(mag as i64))
        }
    } else {
        if mag >= 9223372036854775808 {
            None
        } else {
            Some(mag as i64)
        }
    }
}

} // verus!
