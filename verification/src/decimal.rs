//! Decimal notation of signed 64-bit integers.
//!
//! The specification functions say which texts denote which integers; the
//! executable functions read and write that notation and are proved against
//! them.

use vstd::prelude::*;
use vstd::string::StringExecFns;
use crate::text::chars_of;

verus! {

/// Whether `c` is one of the ten ASCII digits.
pub open spec fn is_digit(c: char) -> bool {
    '0' <= c && c <= '9'
}

/// The number that the digit `c` stands for.
pub open spec fn digit_value(c: char) -> int {
    c as int - '0' as int
}

/// The digit that stands for `d`, for `0 <= d <= 9`.
pub open spec fn digit_char(d: int) -> char {
    (d + '0' as int) as char
}

/// Whether every character of `s` is a digit.
pub open spec fn all_digits(s: Seq<char>) -> bool {
    forall|i: int| 0 <= i < s.len() ==> is_digit(#[trigger] s[i])
}

/// The number that a run of digits denotes, most significant digit first.
pub open spec fn digits_value(s: Seq<char>) -> int
    decreases s.len(),
{
    if s.len() == 0 {
        0
    } else {
        digits_value(s.drop_last()) * 10 + digit_value(s.last())
    }
}

/// The integer that `s` denotes, if any: an optional `+` or `-`, then one or
/// more digits and nothing else. Leading zeros are allowed.
pub open spec fn parse_int(s: Seq<char>) -> Option<int> {
    let signed = s.len() > 0 && (s[0] == '-' || s[0] == '+');
    let digits = if signed {
        s.skip(1)
    } else {
        s
    };
    if digits.len() == 0 || !all_digits(digits) {
        None
    } else if s[0] == '-' {
        Some(-digits_value(digits))
    } else {
        Some(digits_value(digits))
    }
}

/// The `i64` that `s` denotes: `parse_int`, restricted to the range of `i64`.
pub open spec fn parse_i64_spec(s: Seq<char>) -> Option<i64> {
    match parse_int(s) {
        Some(v) => if i64::MIN <= v <= i64::MAX {
            Some(v as i64)
        } else {
            None
        },
        None => None,
    }
}

/// The digits of `n`, without leading zeros.
pub open spec fn nat_decimal(n: nat) -> Seq<char>
    decreases n,
{
    if n < 10 {
        seq![digit_char(n as int)]
    } else {
        nat_decimal(n / 10).push(digit_char((n % 10) as int))
    }
}

/// The canonical decimal text of `v`: a `-` for negative numbers, then the
/// digits of its magnitude.
pub open spec fn int_decimal(v: int) -> Seq<char> {
    if v < 0 {
        seq!['-'] + nat_decimal((-v) as nat)
    } else {
        nat_decimal(v as nat)
    }
}

/// The digits of a number are digits, there is at least one, and they denote
/// that number.
pub proof fn lemma_nat_decimal(n: nat)
    ensures
        nat_decimal(n).len() >= 1,
        all_digits(nat_decimal(n)),
        digits_value(nat_decimal(n)) == n,
    decreases n,
{
    if n < 10 {
        let s = nat_decimal(n);
        assert(s.drop_last() =~= Seq::<char>::empty());
        assert(digits_value(s.drop_last()) == 0);
    } else {
        lemma_nat_decimal(n / 10);
        let s = nat_decimal(n);
        assert(s.drop_last() =~= nat_decimal(n / 10));
    }
}

/// Reading the canonical text of an integer gives that integer back.
pub proof fn lemma_parse_decimal(v: int)
    ensures
        parse_int(int_decimal(v)) == Some(v),
{
    if v < 0 {
        let n = (-v) as nat;
        lemma_nat_decimal(n);
        assert(int_decimal(v).skip(1) =~= nat_decimal(n));
    } else {
        lemma_nat_decimal(v as nat);
    }
}

/// Reading the canonical text of an `i64` gives that `i64` back.
pub proof fn lemma_parse_i64_decimal(v: i64)
    ensures
        parse_i64_spec(int_decimal(v as int)) == Some(v),
{
    lemma_parse_decimal(v as int);
}

/// The canonical text of an integer is not empty, holds nothing but digits
/// and `-`, and ends in a digit.
pub proof fn lemma_decimal_chars(v: int)
    ensures
        int_decimal(v).len() >= 1,
        is_digit(int_decimal(v).last()),
        forall|i: int|
            0 <= i < int_decimal(v).len() ==> is_digit(#[trigger] int_decimal(v)[i])
                || int_decimal(v)[i] == '-',
{
    if v < 0 {
        lemma_nat_decimal((-v) as nat);
    } else {
        lemma_nat_decimal(v as nat);
    }
}

fn digit_of(c: char) -> (d: Option<u8>)
    ensures
        d is Some <==> is_digit(c),
        d matches Some(v) ==> v as int == digit_value(c),
{
    if '0' <= c && c <= '9' {
        Some((c as u32 - '0' as u32) as u8)
    } else {
        None
    }
}

fn digit_str(d: u8) -> (s: &'static str)
    requires
        d <= 9,
    ensures
        s@ == seq![digit_char(d as int)],
{
    proof {
        reveal_strlit("0");
        reveal_strlit("1");
        reveal_strlit("2");
        reveal_strlit("3");
        reveal_strlit("4");
        reveal_strlit("5");
        reveal_strlit("6");
        reveal_strlit("7");
        reveal_strlit("8");
        reveal_strlit("9");
    }
    let s = match d {
        0 => "0",
        1 => "1",
        2 => "2",
        3 => "3",
        4 => "4",
        5 => "5",
        6 => "6",
        7 => "7",
        8 => "8",
        _ => "9",
    };
    assert(s@ =~= seq![digit_char(d as int)]);
    s
}

/// Reads the `i64` written in `chars[start..end]`.
#[verifier::loop_isolation(false)]
pub fn parse_range(chars: &Vec<char>, start: usize, end: usize) -> (r: Option<i64>)
    requires
        start <= end <= chars.len(),
    ensures
        r == parse_i64_spec(chars@.subrange(start as int, end as int)),
{
    let ghost s = chars@.subrange(start as int, end as int);
    if start == end {
        return None;
    }
    let first: char = chars[start];
    let negative = first == '-';
    let from: usize = if first == '-' || first == '+' {
        start + 1
    } else {
        start
    };
    let ghost digits = chars@.subrange(from as int, end as int);
    assert(digits =~= if from > start {
        s.skip(1)
    } else {
        s
    });
    if from == end {
        return None;
    }
    let limit: u64 = if negative {
        9223372036854775808
    } else {
        9223372036854775807
    };
    let mut acc: u64 = 0;
    let mut over = false;
    let mut i: usize = from;
    assert(chars@.subrange(from as int, i as int) =~= Seq::<char>::empty());
    while i < end
        invariant
            from <= i <= end <= chars.len(),
            digits == chars@.subrange(from as int, end as int),
            9223372036854775807 <= limit <= 9223372036854775808,
            all_digits(chars@.subrange(from as int, i as int)),
            digits_value(chars@.subrange(from as int, i as int)) >= 0,
            !over ==> acc == digits_value(chars@.subrange(from as int, i as int)) && acc <= limit,
            over ==> digits_value(chars@.subrange(from as int, i as int)) > limit,
        decreases end - i,
    {
        let ghost before = chars@.subrange(from as int, i as int);
        let ghost after = chars@.subrange(from as int, i + 1);
        assert(after.drop_last() =~= before);
        assert(after.last() == chars@[i as int]);
        match digit_of(chars[i]) {
            None => {
                assert(digits[i - from] == chars@[i as int]);
                return None;
            },
            Some(d) => {
                if !over {
                    if acc > (limit - d as u64) / 10 {
                        over = true;
                    } else {
                        acc = acc * 10 + d as u64;
                    }
                }
            },
        }
        i += 1;
    }
    assert(chars@.subrange(from as int, i as int) =~= digits);
    if over {
        return None;
    }
    if negative {
        if acc == 9223372036854775808 {
            Some(i64::MIN)
        } else {
            Some(-(acc as i64))
        }
    } else {
        Some(acc as i64)
    }
}

/// Reads the `i64` that `text` denotes: an optional sign, then digits only.
pub fn parse_i64(text: &str) -> (r: Option<i64>)
    ensures
        r == parse_i64_spec(text@),
{
    let chars = chars_of(text);
    assert(chars@.subrange(0, chars@.len() as int) =~= chars@);
    parse_range(&chars, 0, chars.len())
}

fn append_nat(out: &mut String, n: u64)
    ensures
        final(out)@ == old(out)@ + nat_decimal(n as nat),
    decreases n,
{
    if n >= 10 {
        append_nat(out, n / 10);
    }
    out.append(digit_str((n % 10) as u8));
    assert(out@ =~= old(out)@ + nat_decimal(n as nat));
}

/// Appends the canonical decimal text of `v` to `out`.
pub fn append_i64(out: &mut String, v: i64)
    ensures
        final(out)@ == old(out)@ + int_decimal(v as int),
{
    if v < 0 {
        proof {
            reveal_strlit("-");
        }
        out.append("-");
        let magnitude: u64 = if v == i64::MIN {
            9223372036854775808
        } else {
            (-v) as u64
        };
        append_nat(out, magnitude);
        assert(out@ =~= old(out)@ + int_decimal(v as int));
    } else {
        append_nat(out, v as u64);
    }
}

/// The canonical decimal text of `v`.
pub fn format_i64(v: i64) -> (r: String)
    ensures
        r@ == int_decimal(v as int),
{
    let mut out = String::new();
    append_i64(&mut out, v);
    assert(out@ =~= int_decimal(v as int));
    out
}

} // verus!
