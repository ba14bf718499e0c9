//! Decimal integers: parsing as `i64::from_str` does, and formatting as `Display` does.
use vstd::prelude::*;

verus! {

/// `c` is an ASCII decimal digit.
pub open spec fn is_digit(c: char) -> bool {
    '0' <= c && c <= '9'
}

/// The value of an ASCII digit.
pub open spec fn digit_value(c: char) -> int {
    (c as int) - ('0' as int)
}

/// Every character of `s` is a decimal digit.
pub open spec fn all_digits(s: Seq<char>) -> bool {
    forall|i: int| 0 <= i < s.len() ==> is_digit(#[trigger] s[i])
}

/// The value of a string of decimal digits.
pub open spec fn digits_value(s: Seq<char>) -> int
    decreases s.len(),
{
    if s.len() == 0 {
        0
    } else {
        digits_value(s.drop_last()) * 10 + digit_value(s.last())
    }
}

/// The integer that `i64::from_str` reads from `s`, before the range check: an optional
/// leading `+` or `-`, then one or more decimal digits.
pub open spec fn parse_decimal(s: Seq<char>) -> Option<int> {
    let neg = s.len() > 0 && s[0] == '-';
    let signed = s.len() > 0 && (s[0] == '-' || s[0] == '+');
    let body = if signed {
        s.drop_first()
    } else {
        s
    };
    if body.len() == 0 || !all_digits(body) {
        None
    } else if neg {
        Some(-digits_value(body))
    } else {
        Some(digits_value(body))
    }
}

/// What `i64::from_str` returns for `s`.
pub open spec fn parse_i64_spec(s: Seq<char>) -> Option<i64> {
    match parse_decimal(s) {
        Some(v) => if i64::MIN <= v <= i64::MAX {
            Some(v as i64)
        } else {
            None
        },
        None => None,
    }
}

/// What `i16::from_str` returns for `s`.
pub open spec fn parse_i16_spec(s: Seq<char>) -> Option<i16> {
    match parse_decimal(s) {
        Some(v) => if i16::MIN <= v <= i16::MAX {
            Some(v as i16)
        } else {
            None
        },
        None => None,
    }
}

/// The ASCII digit for a value below ten.
pub open spec fn digit_char(d: int) -> char {
    ((d + ('0' as int)) as u32) as char
}

/// The decimal representation of a natural number, without leading zeros.
pub open spec fn decimal(n: nat) -> Seq<char>
    decreases n,
{
    if n < 10 {
        seq![digit_char(n as int)]
    } else {
        decimal(n / 10).push(digit_char((n % 10) as int))
    }
}

/// The decimal representation of an integer, with a leading `-` when it is negative.
pub open spec fn decimal_int(n: int) -> Seq<char> {
    if n < 0 {
        seq!['-'] + decimal((-n) as nat)
    } else {
        decimal(n as nat)
    }
}

proof fn lemma_digits_value_nonneg(s: Seq<char>)
    requires
        all_digits(s),
    ensures
        digits_value(s) >= 0,
    decreases s.len(),
{
    if s.len() > 0 {
        assert(all_digits(s.drop_last()));
        lemma_digits_value_nonneg(s.drop_last());
        assert(is_digit(s[s.len() - 1]));
    }
}

/// The magnitude of the digits `cs[start..]`, or `None` once it exceeds `limit`.
fn digits_magnitude(cs: &[char], start: usize, limit: u64) -> (r: Option<u64>)
    requires
        start < cs@.len(),
        10 <= limit <= 0x8000_0000_0000_0000u64,
    ensures
        all_digits(cs@.subrange(start as int, cs@.len() as int)) ==> match r {
            Some(v) => v == digits_value(cs@.subrange(start as int, cs@.len() as int)) && v <= limit,
            None => digits_value(cs@.subrange(start as int, cs@.len() as int)) > limit,
        },
        !all_digits(cs@.subrange(start as int, cs@.len() as int)) ==> r is None,
{
    let mut v: u64 = 0;
    let mut i: usize = start;
    let n = cs.len();
    while i < n
        invariant
            start <= i <= n,
            n == cs@.len(),
            10 <= limit <= 0x8000_0000_0000_0000u64,
            all_digits(cs@.subrange(start as int, i as int)),
            v == digits_value(cs@.subrange(start as int, i as int)),
            v <= limit,
        decreases n - i,
    {
        let c = cs[i];
        proof {
            assert(cs@.subrange(start as int, i + 1).drop_last() =~= cs@.subrange(
                start as int,
                i as int,
            ));
            assert(cs@.subrange(start as int, i + 1).last() == c);
        }
        if !('0' <= c && c <= '9') {
            proof {
                let whole = cs@.subrange(start as int, cs@.len() as int);
                assert(whole[i - start] == c);
            }
            return None;
        }
        let d: u64 = (c as u64) - 48;
        if v > (limit - d) / 10 {
            // v * 10 + d > limit: every later digit only grows the magnitude.
            proof {
                assert(v * 10 + d > limit) by (nonlinear_arith)
                    requires
                        v > (limit - d) / 10,
                        d <= limit || d <= 9,
                        d <= 9,
                ;
            }
            return digits_overflow_rest(cs, start, i + 1, limit, Ghost((v * 10 + d) as int));
        }
        v = v * 10 + d;
        i = i + 1;
    }
    assert(cs@.subrange(start as int, n as int) =~= cs@.subrange(start as int, cs@.len() as int));
    Some(v)
}

proof fn lemma_digits_value_grows(s: Seq<char>, k: int)
    requires
        0 <= k <= s.len(),
        all_digits(s),
    ensures
        digits_value(s) >= digits_value(s.subrange(0, k)),
    decreases s.len() - k,
{
    if k < s.len() {
        lemma_digits_value_grows(s, k + 1);
        assert(s.subrange(0, k + 1).drop_last() =~= s.subrange(0, k));
        assert(all_digits(s.subrange(0, k)));
        lemma_digits_value_nonneg(s.subrange(0, k));
        assert(is_digit(s.subrange(0, k + 1).last()));
    } else {
        assert(s.subrange(0, k) =~= s);
    }
}

/// Finishes a scan whose prefix `cs[start..i]` already exceeds `limit`: the answer is `None`
/// whether or not the rest is made of digits.
fn digits_overflow_rest(cs: &[char], start: usize, i: usize, limit: u64, Ghost(prefix): Ghost<
    int,
>) -> (r: Option<u64>)
    requires
        start < i <= cs@.len(),
        all_digits(cs@.subrange(start as int, i as int)),
        prefix == digits_value(cs@.subrange(start as int, i as int)),
        prefix > limit,
    ensures
        all_digits(cs@.subrange(start as int, cs@.len() as int)) ==> digits_value(
            cs@.subrange(start as int, cs@.len() as int),
        ) > limit,
        r is None,
{
    proof {
        let whole = cs@.subrange(start as int, cs@.len() as int);
        if all_digits(whole) {
            lemma_digits_value_grows(whole, i - start);
            assert(whole.subrange(0, i - start) =~= cs@.subrange(start as int, i as int));
        }
    }
    None
}

/// Parses a decimal integer exactly as `i64::from_str` does.
pub fn parse_i64(cs: &[char]) -> (r: Option<i64>)
    ensures
        r == parse_i64_spec(cs@),
{
    if cs.len() == 0 {
        return None;
    }
    let neg = cs[0] == '-';
    let signed = cs[0] == '-' || cs[0] == '+';
    let start: usize = if signed {
        1
    } else {
        0
    };
    if start >= cs.len() {
        return None;
    }
    proof {
        if signed {
            assert(cs@.subrange(1, cs@.len() as int) =~= cs@.drop_first());
        } else {
            assert(cs@.subrange(0, cs@.len() as int) =~= cs@);
        }
    }
    let limit: u64 = if neg {
        0x8000_0000_0000_0000u64
    } else {
        0x7fff_ffff_ffff_ffffu64
    };
    match digits_magnitude(cs, start, limit) {
        None => None,
        Some(m) => {
            if neg {
                if m == 0x8000_0000_0000_0000u64 {
                    Some(i64::MIN)
                } else {
                    let v: i64 = m as i64;
                    Some(-v)
                }
            } else {
                let v: i64 = m as i64;
                Some(v)
            }
        },
    }
}

/// Parses a decimal integer exactly as `i16::from_str` does.
pub fn parse_i16(cs: &[char]) -> (r: Option<i16>)
    ensures
        r == parse_i16_spec(cs@),
{
    match parse_i64(cs) {
        None => {
            proof {
                if parse_decimal(cs@) is Some {
                    let v = parse_decimal(cs@)->0;
                    assert(!(i64::MIN <= v <= i64::MAX));
                }
            }
            None
        },
        Some(v) => {
            if v < -32768 || v > 32767 {
                None
            } else {
                let w: i16 = v as i16;
                Some(w)
            }
        },
    }
}

/// The ASCII digit for a value below ten.
fn digit_to_char(d: u64) -> (c: char)
    requires
        d < 10,
    ensures
        c == digit_char(d as int),
{
    let b: u8 = (d + 48) as u8;
    b as char
}

/// Formats a natural number in decimal, as `Display` does.
pub fn format_u64(n: u64) -> (out: Vec<char>)
    ensures
        out@ == decimal(n as nat),
    decreases n,
{
    if n < 10 {
        let mut out: Vec<char> = Vec::new();
        out.push(digit_to_char(n));
        assert(out@ =~= seq![digit_char(n as int)]);
        out
    } else {
        let mut out = format_u64(n / 10);
        out.push(digit_to_char(n % 10));
        out
    }
}

/// Formats an integer in decimal, as `Display` does.
pub fn format_i64(n: i64) -> (out: Vec<char>)
    ensures
        out@ == decimal_int(n as int),
{
    if n < 0 {
        let m: u64 = if n == i64::MIN {
            0x8000_0000_0000_0000u64
        } else {
            let p: i64 = -n;
            p as u64
        };
        let digits = format_u64(m);
        let mut out: Vec<char> = Vec::new();
        out.push('-');
        let mut i: usize = 0;
        while i < digits.len()
            invariant
                0 <= i <= digits@.len(),
                out@ == seq!['-'] + digits@.subrange(0, i as int),
            decreases digits@.len() - i,
        {
            out.push(digits[i]);
            assert(digits@.subrange(0, i + 1) =~= digits@.subrange(0, i as int).push(
                digits@[i as int],
            ));
            i = i + 1;
        }
        assert(digits@.subrange(0, digits@.len() as int) =~= digits@);
        out
    } else {
        let m: u64 = n as u64;
        format_u64(m)
    }
}

} // verus!
