//! Decimal text: the canonical textual form of integers, as found in wire
//! cells, and verified conversions in both directions.

use vstd::prelude::*;

verus! {

/// A decimal digit character.
pub open spec fn is_digit(c: char) -> bool {
    '0' <= c && c <= '9'
}

/// Numeric value of a digit character.
pub open spec fn digit_val(c: char) -> nat {
    ((c as int) - ('0' as int)) as nat
}

/// Every character of `s` is a decimal digit.
pub open spec fn is_digit_seq(s: Seq<char>) -> bool {
    forall|i: int| 0 <= i < s.len() ==> is_digit(#[trigger] s[i])
}

/// Value of a digit sequence read in base 10, most significant first.
pub open spec fn digits_val(s: Seq<char>) -> nat
    decreases s.len(),
{
    if s.len() == 0 {
        0
    } else {
        digits_val(s.drop_last()) * 10 + digit_val(s.last())
    }
}

/// The canonical unsigned parse: an optional leading `+`, then one or more
/// digits. `None` when the text has any other shape.
pub open spec fn uint_of_str(s: Seq<char>) -> Option<nat> {
    let t = if s.len() > 0 && s[0] == '+' {
        s.skip(1)
    } else {
        s
    };
    if t.len() > 0 && is_digit_seq(t) {
        Some(digits_val(t))
    } else {
        None
    }
}

/// The canonical signed parse: an optional leading `+` or `-`, then one or
/// more digits.
pub open spec fn int_of_str(s: Seq<char>) -> Option<int> {
    if s.len() > 0 && s[0] == '-' {
        let t = s.skip(1);
        if t.len() > 0 && is_digit_seq(t) {
            Some(-(digits_val(t) as int))
        } else {
            None
        }
    } else {
        match uint_of_str(s) {
            Some(n) => Some(n as int),
            None => None,
        }
    }
}

/// Extending a digit prefix by one digit multiplies its value by ten and adds
/// the digit.
pub proof fn lemma_digits_val_step(s: Seq<char>, i: int)
    requires
        0 <= i < s.len(),
    ensures
        digits_val(s.take(i + 1)) == digits_val(s.take(i)) * 10 + digit_val(s[i]),
{
    assert(s.take(i + 1).drop_last() =~= s.take(i));
    assert(s.take(i + 1).last() == s[i]);
}

/// A longer digit prefix never has a smaller value.
pub proof fn lemma_digits_val_mono(s: Seq<char>, i: int, j: int)
    requires
        0 <= i <= j <= s.len(),
    ensures
        digits_val(s.take(i)) <= digits_val(s.take(j)),
    decreases j - i,
{
    if i < j {
        lemma_digits_val_mono(s, i, j - 1);
        lemma_digits_val_step(s, j - 1);
    }
}

/// A sequence of `n` digits denotes a value below `10^n`.
pub proof fn lemma_digits_val_bound(s: Seq<char>)
    requires
        is_digit_seq(s),
    ensures
        digits_val(s) < pow10(s.len() as nat),
    decreases s.len(),
{
    if s.len() > 0 {
        lemma_digits_val_bound(s.drop_last());
        assert(digit_val(s.last()) <= 9);
    }
}

/// Powers of ten.
pub open spec fn pow10(n: nat) -> nat
    decreases n,
{
    if n == 0 {
        1
    } else {
        10 * pow10((n - 1) as nat)
    }
}

/// Reads the digits of `s` from position `from` to the end as a base-10
/// value. `None` when that range is empty, holds a non-digit, or denotes a
/// value above `u128::MAX`.
pub fn parse_digits_u128(s: &str, from: usize) -> (r: Option<u128>)
    requires
        from <= s@.len(),
    ensures
        match r {
            Some(v) => {
                &&& s@.len() > from
                &&& is_digit_seq(s@.skip(from as int))
                &&& digits_val(s@.skip(from as int)) == v
            },
            None => {
                ||| s@.len() == from
                ||| !is_digit_seq(s@.skip(from as int))
                ||| digits_val(s@.skip(from as int)) > u128::MAX
            },
        },
{
    let n = s.unicode_len();
    if from >= n {
        return None;
    }
    let ghost t = s@.skip(from as int);
    let mut acc: u128 = 0;
    let mut i: usize = from;
    while i < n
        invariant
            from <= i <= n,
            n == s@.len(),
            t == s@.skip(from as int),
            is_digit_seq(t.take(i - from)),
            acc == digits_val(t.take(i - from)),
        decreases n - i,
    {
        let c = s.get_char(i);
        assert(t[i - from] == s@[i as int]);
        if c < '0' || c > '9' {
            assert(!is_digit(t[i - from]));
            return None;
        }
        let d: u128 = (c as u32 as u128) - 48;
        assert(d == digit_val(t[i - from]));
        if acc > (u128::MAX - d) / 10 {
            proof {
                assert(acc * 10 + d > u128::MAX) by (nonlinear_arith)
                    requires
                        acc > (u128::MAX - d) / 10,
                        d <= 9,
                ;
                lemma_digits_val_step(t, i - from);
                lemma_digits_val_mono(t, i - from + 1, t.len() as int);
                assert(t.take(t.len() as int) =~= t);
            }
            return None;
        }
        proof {
            assert(acc * 10 + d <= u128::MAX) by (nonlinear_arith)
                requires
                    acc <= (u128::MAX - d) / 10,
                    d <= 9,
            ;
            lemma_digits_val_step(t, i - from);
        }
        acc = acc * 10 + d;
        i = i + 1;
    }
    proof {
        assert(t.take(t.len() as int) =~= t);
    }
    Some(acc)
}

/// The canonical unsigned parse of `s`, up to the width of `u128`.
pub fn parse_uint_str(s: &str) -> (r: Option<u128>)
    ensures
        match uint_of_str(s@) {
            Some(v) => if v <= u128::MAX {
                r == Some(v as u128)
            } else {
                r is None
            },
            None => r is None,
        },
{
    let n = s.unicode_len();
    if n > 0 && s.get_char(0) == '+' {
        parse_digits_u128(s, 1)
    } else {
        proof {
            assert(s@.skip(0) =~= s@);
        }
        parse_digits_u128(s, 0)
    }
}

/// The canonical signed parse of `s`: sign and magnitude, the magnitude up to
/// the width of `u128`. The result pairs the sign (true for negative) with
/// the magnitude.
pub fn parse_sint_str(s: &str) -> (r: Option<(bool, u128)>)
    ensures
        match int_of_str(s@) {
            Some(v) => {
                if -(u128::MAX as int) <= v <= u128::MAX as int {
                    r matches Some((neg, m)) && (if neg {
                        v == -(m as int)
                    } else {
                        v == m as int
                    })
                } else {
                    r is None
                }
            },
            None => r is None,
        },
{
    let n = s.unicode_len();
    if n > 0 && s.get_char(0) == '-' {
        match parse_digits_u128(s, 1) {
            Some(m) => Some((true, m)),
            None => None,
        }
    } else {
        match parse_uint_str(s) {
            Some(m) => Some((false, m)),
            None => None,
        }
    }
}

/// The canonical parse of `s` as an `i64`, exactly when the text denotes a
/// value in the range of `i64`.
pub fn parse_i64_str(s: &str) -> (r: Option<i64>)
    ensures
        match int_of_str(s@) {
            Some(v) => if i64::MIN <= v <= i64::MAX {
                r == Some(v as i64)
            } else {
                r is None
            },
            None => r is None,
        },
{
    match parse_sint_str(s) {
        Some((neg, m)) => {
            if !neg {
                if m <= i64::MAX as u128 {
                    Some(m as i64)
                } else {
                    None
                }
            } else {
                if m <= i64::MAX as u128 {
                    Some(-(m as i64))
                } else if m == (i64::MAX as u128) + 1 {
                    Some(i64::MIN)
                } else {
                    None
                }
            }
        },
        None => None,
    }
}

/// The canonical parse of `s` as a `u64`, exactly when the text denotes a
/// value in the range of `u64`.
pub fn parse_u64_str(s: &str) -> (r: Option<u64>)
    ensures
        match uint_of_str(s@) {
            Some(v) => if v <= u64::MAX {
                r == Some(v as u64)
            } else {
                r is None
            },
            None => r is None,
        },
{
    match parse_uint_str(s) {
        Some(m) => if m <= u64::MAX as u128 {
            Some(m as u64)
        } else {
            None
        },
        None => None,
    }
}

/// The digit character of a value below ten.
pub open spec fn digit_char(n: nat) -> char {
    if n == 0 {
        '0'
    } else if n == 1 {
        '1'
    } else if n == 2 {
        '2'
    } else if n == 3 {
        '3'
    } else if n == 4 {
        '4'
    } else if n == 5 {
        '5'
    } else if n == 6 {
        '6'
    } else if n == 7 {
        '7'
    } else if n == 8 {
        '8'
    } else {
        '9'
    }
}

/// The decimal digits of `n`, most significant first, without sign and
/// without leading zeros (`0` itself is the single digit `0`).
pub open spec fn dec_digits(n: nat) -> Seq<char>
    decreases n,
{
    if n < 10 {
        seq![digit_char(n)]
    } else {
        dec_digits(n / 10).push(digit_char(n % 10))
    }
}

/// The canonical decimal text of an integer: a `-` sign when negative, then
/// the digits.
pub open spec fn dec_int(v: int) -> Seq<char> {
    if v < 0 {
        seq!['-'] + dec_digits((-v) as nat)
    } else {
        dec_digits(v as nat)
    }
}

/// The decimal digits of `n` are digits, nonempty, and denote `n` again.
pub proof fn lemma_dec_digits(n: nat)
    ensures
        is_digit_seq(dec_digits(n)),
        dec_digits(n).len() >= 1,
        digits_val(dec_digits(n)) == n,
        is_digit(dec_digits(n)[0]),
    decreases n,
{
    if n < 10 {
        let s = dec_digits(n);
        assert(digit_val(digit_char(n)) == n);
        assert(s.drop_last() =~= Seq::<char>::empty());
        assert(digits_val(Seq::<char>::empty()) == 0);
        assert(s.last() == digit_char(n));
        assert(digits_val(s) == 0 * 10 + digit_val(digit_char(n)));
    } else {
        lemma_dec_digits(n / 10);
        let s = dec_digits(n);
        assert(s.drop_last() =~= dec_digits(n / 10));
        assert(digit_val(digit_char(n % 10)) == n % 10);
        assert(digits_val(s) == (n / 10) * 10 + n % 10);
        assert((n / 10) * 10 + n % 10 == n) by (nonlinear_arith);
        assert(forall|i: int| 0 <= i < s.len() ==> is_digit(#[trigger] s[i])) by {
            assert(forall|i: int|
                0 <= i < s.len() - 1 ==> s[i] == #[trigger] dec_digits(n / 10)[i]);
        }
    }
}

/// Encoding an integer and parsing it back yields the integer: the unsigned
/// direction.
pub proof fn lemma_uint_roundtrip(n: nat)
    ensures
        uint_of_str(dec_digits(n)) == Some(n),
{
    lemma_dec_digits(n);
    assert(dec_digits(n)[0] != '+');
}

/// Encoding an integer and parsing it back yields the integer: the signed
/// direction.
pub proof fn lemma_int_roundtrip(v: int)
    ensures
        int_of_str(dec_int(v)) == Some(v),
{
    if v < 0 {
        let s = dec_int(v);
        lemma_dec_digits((-v) as nat);
        assert(s[0] == '-');
        assert(s.skip(1) =~= dec_digits((-v) as nat));
    } else {
        lemma_dec_digits(v as nat);
        assert(dec_int(v)[0] != '+' && dec_int(v)[0] != '-');
    }
}

/// The one-character string of a digit value.
fn digit_str(d: u128) -> (r: &'static str)
    requires
        d < 10,
    ensures
        r@ =~= seq![digit_char(d as nat)],
{
    proof {
        reveal_strlit("0");
        reveal_strlit("1");
        reveal_strlit("2");
        reveal_strlit("3");
        reveal_strlit("4");
        reveal_strlit("5");
        reveal_strlit("6");
        reveal_strlit("7");
        reveal_strlit("8");
        reveal_strlit("9");
    }
    if d == 0 {
        "0"
    } else if d == 1 {
        "1"
    } else if d == 2 {
        "2"
    } else if d == 3 {
        "3"
    } else if d == 4 {
        "4"
    } else if d == 5 {
        "5"
    } else if d == 6 {
        "6"
    } else if d == 7 {
        "7"
    } else if d == 8 {
        "8"
    } else {
        "9"
    }
}

/// The decimal text of an unsigned value.
pub fn u128_to_string(n: u128) -> (r: String)
    ensures
        r@ == dec_digits(n as nat),
    decreases n,
{
    if n < 10 {
        String::from_str(digit_str(n))
    } else {
        let mut s = u128_to_string(n / 10);
        s.append(digit_str(n % 10));
        proof {
            assert(dec_digits((n / 10) as nat).push(digit_char((n % 10) as nat)) =~= dec_digits(
                (n / 10) as nat,
            ) + seq![digit_char((n % 10) as nat)]);
        }
        s
    }
}

/// The decimal text of a `u64` value.
pub fn u64_to_string(n: u64) -> (r: String)
    ensures
        r@ == dec_digits(n as nat),
{
    u128_to_string(n as u128)
}

/// The decimal text of an `i64` value, with its sign.
pub fn i64_to_string(v: i64) -> (r: String)
    ensures
        r@ == dec_int(v as int),
{
    if v < 0 {
        let m: u128 = (-(v as i128)) as u128;
        let mut s = String::from_str("-");
        let digits = u128_to_string(m);
        s.append(digits.as_str());
        proof {
            reveal_strlit("-");
            assert(s@ =~= seq!['-'] + dec_digits(m as nat));
        }
        s
    } else {
        u128_to_string(v as u128)
    }
}

} // verus!
