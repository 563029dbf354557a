//! Decimal numbers in text: `str::parse` for unsigned integers and the
//! `{}` rendering of a `u64`.

use vstd::prelude::*;
use crate::text::{chars_of, string_from_chars};

verus! {

/// Whether `c` is one of `0`..`9`.
pub open spec fn is_digit(c: char) -> bool {
    '0' <= c && c <= '9'
}

/// The value of the digit `c`.
pub open spec fn digit_value(c: char) -> int {
    c as int - '0' as int
}

/// Whether every character of `s` is a digit.
pub open spec fn all_digits(s: Seq<char>) -> bool {
    forall|i: int| 0 <= i < s.len() ==> is_digit(#[trigger] s[i])
}

/// The number that the digits `s` spell in base ten.
pub open spec fn digits_value(s: Seq<char>) -> int
    decreases s.len(),
{
    if s.len() == 0 {
        0
    } else {
        digits_value(s.drop_last()) * 10 + digit_value(s.last())
    }
}

/// What is left of `s` once one leading `+` is removed.
pub open spec fn unsigned_body(s: Seq<char>) -> Seq<char> {
    if s.len() > 0 && s[0] == '+' {
        s.drop_first()
    } else {
        s
    }
}

/// `s.parse()` into an unsigned integer type whose largest value is `max`:
/// an optional `+` and then at least one digit, with a value of at most `max`.
pub open spec fn parse_unsigned_spec(s: Seq<char>, max: int) -> Option<int> {
    let d = unsigned_body(s);
    if d.len() > 0 && all_digits(d) && digits_value(d) <= max {
        Some(digits_value(d))
    } else {
        None
    }
}

/// The character of the digit with value `d`.
pub open spec fn digit_char(d: int) -> char {
    (d + '0' as int) as char
}

/// The decimal rendering of `n` (`format!("{}", n)`): its digits, with no
/// leading zero except for `0` itself.
pub open spec fn decimal_spec(n: nat) -> Seq<char>
    decreases n,
{
    if n < 10 {
        seq![digit_char(n as int)]
    } else {
        decimal_spec(n / 10).push(digit_char((n % 10) as int))
    }
}

proof fn lemma_digits_nonneg_monotone(s: Seq<char>, k: int)
    requires
        all_digits(s),
        0 <= k <= s.len(),
    ensures
        0 <= digits_value(s.subrange(0, k)) <= digits_value(s),
    decreases s.len(),
{
    if s.len() == 0 {
        assert(s.subrange(0, k) =~= s);
    } else if k == s.len() {
        assert(s.subrange(0, k) =~= s);
        lemma_digits_nonneg_monotone(s.drop_last(), k - 1);
    } else {
        assert(s.drop_last().subrange(0, k) =~= s.subrange(0, k));
        lemma_digits_nonneg_monotone(s.drop_last(), k);
        lemma_digits_nonneg_monotone(s.drop_last(), s.len() - 1);
        assert(s.drop_last().subrange(0, s.len() - 1) =~= s.drop_last());
    }
}

/// Parses `s` as a `u64` exactly as `str::parse::<u64>` does.
pub fn parse_u64(s: &str) -> (r: Option<u64>)
    ensures
        match parse_unsigned_spec(s@, u64::MAX as int) {
            Some(v) => r == Some(v as u64),
            None => r is None,
        },
        r matches Some(v) ==> parse_unsigned_spec(s@, u64::MAX as int) == Some(v as int),
{
    let cs = chars_of(s);
    let start: usize = if cs.len() > 0 && cs[0] == '+' {
        1
    } else {
        0
    };
    let ghost d = unsigned_body(cs@);
    assert(d =~= cs@.subrange(start as int, cs.len() as int));
    if start >= cs.len() {
        return None;
    }
    let mut v: u64 = 0;
    let mut i: usize = start;
    while i < cs.len()
        invariant
            cs@ == s@,
            d == unsigned_body(s@),
            start <= i <= cs.len(),
            d == cs@.subrange(start as int, cs.len() as int),
            all_digits(d.subrange(0, i - start)),
            v as int == digits_value(d.subrange(0, i - start)),
        decreases cs.len() - i,
    {
        let c = cs[i];
        if !('0' <= c && c <= '9') {
            assert(d[i - start] == c);
            return None;
        }
        let dig = (c as u32 - '0' as u32) as u64;
        assert(d.subrange(0, i + 1 - start).drop_last() =~= d.subrange(0, i - start));
        if v > (u64::MAX - dig) / 10 {
            proof {
                assert(v * 10 + dig > u64::MAX) by (nonlinear_arith)
                    requires
                        v > (u64::MAX - dig) / 10,
                        dig <= 9,
                ;
                if all_digits(d) {
                    lemma_digits_nonneg_monotone(d, i + 1 - start);
                }
            }
            return None;
        }
        assert(v * 10 + dig <= u64::MAX) by (nonlinear_arith)
            requires
                v <= (u64::MAX - dig) / 10,
                dig <= 9,
        ;
        v = v * 10 + dig;
        i += 1;
    }
    assert(d.subrange(0, i - start) =~= d);
    Some(v)
}

/// Parses `s` as a `usize` exactly as `str::parse::<usize>` does.
pub fn parse_usize(s: &str) -> (r: Option<usize>)
    ensures
        match parse_unsigned_spec(s@, usize::MAX as int) {
            Some(v) => r == Some(v as usize),
            None => r is None,
        },
{
    assert(usize::MAX as int <= u64::MAX as int);
    let r = parse_u64(s);
    let ghost d = unsigned_body(s@);
    match r {
        Some(v) => {
            if v <= usize::MAX as u64 {
                assert(parse_unsigned_spec(s@, usize::MAX as int) == Some(v as int));
                Some(v as usize)
            } else {
                None
            }
        },
        None => None,
    }
}

proof fn lemma_decimal_digits(n: nat)
    ensures
        decimal_spec(n).len() > 0,
        all_digits(decimal_spec(n)),
        digits_value(decimal_spec(n)) == n,
        decimal_spec(n)[0] != '+',
    decreases n,
{
    if n >= 10 {
        lemma_decimal_digits(n / 10);
        let s = decimal_spec(n);
        assert(s.drop_last() =~= decimal_spec(n / 10));
        assert(s[0] == decimal_spec(n / 10)[0]);
        assert(digit_value(s.last()) == n % 10);
        assert(n == (n / 10) * 10 + n % 10);
    } else {
        assert(decimal_spec(n).drop_last() =~= Seq::<char>::empty());
        assert(digits_value(Seq::<char>::empty()) == 0);
        assert(digit_value(decimal_spec(n).last()) == n);
    }
}

/// Reading back the decimal rendering of a number gives the number again.
pub proof fn law_decimal_round_trip(n: u64)
    ensures
        parse_unsigned_spec(decimal_spec(n as nat), u64::MAX as int) == Some(n as int),
{
    lemma_decimal_digits(n as nat);
}

fn digit_to_char(d: u64) -> (c: char)
    requires
        d < 10,
    ensures
        c == digit_char(d as int),
{
    match d {
        0 => '0',
        1 => '1',
        2 => '2',
        3 => '3',
        4 => '4',
        5 => '5',
        6 => '6',
        7 => '7',
        8 => '8',
        _ => '9',
    }
}

/// `format!("{}", n)` for a `u64`.
pub fn format_u64(n: u64) -> (r: String)
    ensures
        r@ == decimal_spec(n as nat),
{
    // Digits, least significant first.
    let mut rev: Vec<char> = Vec::new();
    let mut m = n;
    let ghost mut tail: Seq<char> = seq![];
    while m >= 10
        invariant
            1 <= m + 1,
            decimal_spec(n as nat) == decimal_spec(m as nat) + tail,
            rev@ == tail.reverse(),
        decreases m,
    {
        let c = digit_to_char(m % 10);
        let ghost old_tail = tail;
        proof {
            tail = seq![c] + tail;
        }
        rev.push(c);
        assert(rev@ =~= tail.reverse());
        assert(decimal_spec(m as nat) == decimal_spec((m / 10) as nat).push(c));
        assert(decimal_spec((m / 10) as nat) + tail =~= decimal_spec(m as nat) + old_tail);
        m = m / 10;
    }
    let c = digit_to_char(m);
    let ghost old_tail = tail;
    proof {
        tail = seq![c] + tail;
    }
    rev.push(c);
    assert(rev@ =~= tail.reverse());
    assert(decimal_spec(n as nat) =~= tail);
    let mut out: Vec<char> = Vec::new();
    let mut k = rev.len();
    while k > 0
        invariant
            k <= rev.len(),
            rev@ == tail.reverse(),
            out@ =~= tail.subrange(0, (rev.len() - k) as int),
        decreases k,
    {
        k -= 1;
        out.push(rev[k]);
    }
    assert(out@ =~= tail);
    string_from_chars(&out)
}

} // verus!
