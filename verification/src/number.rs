//! Reading and writing integers as text.
//!
//! Journal fields carry their numbers as text: priorities and timestamps in
//! decimal, the sequence index of a cursor in hexadecimal. The functions here
//! read such text and give the value, or `None` where the text is no number of
//! the requested kind, and write a value back as decimal text.

use crate::text::chars_of;
use vstd::prelude::*;

verus! {

/// The value of `c` as a hexadecimal digit: `0-9`, `a-f` or `A-F`.
pub open spec fn hex_digit(c: char) -> Option<nat> {
    if '0' <= c <= '9' {
        Some((c as int - '0' as int) as nat)
    } else if 'a' <= c <= 'f' {
        Some((c as int - 'a' as int + 10) as nat)
    } else if 'A' <= c <= 'F' {
        Some((c as int - 'A' as int + 10) as nat)
    } else {
        None
    }
}

/// The value of `c` as a digit in base `radix`, for a base up to 16.
pub open spec fn digit(c: char, radix: nat) -> Option<nat> {
    match hex_digit(c) {
        Some(d) => if d < radix {
            Some(d)
        } else {
            None
        },
        None => None,
    }
}

/// Every character of `s` is a digit in base `radix`.
pub open spec fn all_digits(s: Seq<char>, radix: nat) -> bool {
    forall|i: int| 0 <= i < s.len() ==> (#[trigger] digit(s[i], radix)) is Some
}

/// The number that the digits `s` denote in base `radix`, most significant
/// digit first. Meaningful where `all_digits(s, radix)`.
pub open spec fn digits_value(s: Seq<char>, radix: nat) -> nat
    decreases s.len(),
{
    if s.len() == 0 {
        0
    } else {
        digits_value(s.drop_last(), radix) * radix + digit(s.last(), radix).unwrap_or(0)
    }
}

/// `s` without one leading `+`, if it has one.
pub open spec fn without_plus(s: Seq<char>) -> Seq<char> {
    if s.len() > 0 && s[0] == '+' {
        s.skip(1)
    } else {
        s
    }
}

/// What `s` denotes as an unsigned number in base `radix` that is at most
/// `max`: an optional `+`, then one or more digits and nothing else. `None`
/// for any other text and for a number above `max`.
pub open spec fn parse_unsigned(s: Seq<char>, radix: nat, max: nat) -> Option<nat> {
    let body = without_plus(s);
    if body.len() > 0 && all_digits(body, radix) && digits_value(body, radix) <= max {
        Some(digits_value(body, radix))
    } else {
        None
    }
}

/// What `s` denotes as a signed decimal number between `min` and `max`: an
/// optional `+` or `-`, then one or more digits and nothing else.
pub open spec fn parse_signed(s: Seq<char>, min: int, max: int) -> Option<int> {
    let negative = s.len() > 0 && s[0] == '-';
    let body = if negative {
        s.skip(1)
    } else {
        without_plus(s)
    };
    let magnitude = digits_value(body, 10) as int;
    let value = if negative {
        -magnitude
    } else {
        magnitude
    };
    if body.len() > 0 && all_digits(body, 10) && min <= value <= max {
        Some(value)
    } else {
        None
    }
}

/// The character that writes the decimal digit `d`.
pub open spec fn digit_char(d: nat) -> char
    recommends
        d < 10,
{
    ('0' as int + d) as char
}

/// `n` in decimal, without leading zeros; `0` is written `"0"`.
pub open spec fn decimal_text(n: nat) -> Seq<char>
    decreases n,
{
    if n < 10 {
        seq![digit_char(n)]
    } else {
        decimal_text(n / 10).push(digit_char(n % 10))
    }
}

/// A longer run of digits never denotes less than one of its prefixes.
pub proof fn lemma_prefix_value_is_smaller(s: Seq<char>, k: int, radix: nat)
    requires
        0 <= k <= s.len(),
        radix >= 1,
    ensures
        digits_value(s.take(k), radix) <= digits_value(s, radix),
    decreases s.len() - k,
{
    if k == s.len() {
        assert(s.take(k) =~= s);
    } else {
        let t = s.drop_last();
        assert(t.take(k) =~= s.take(k));
        lemma_prefix_value_is_smaller(t, k, radix);
        assert(digits_value(t, radix) * radix >= digits_value(t, radix)) by (nonlinear_arith)
            requires
                radix >= 1,
        ;
    }
}

/// The decimal text of a number holds digits only, and they denote the
/// number.
pub proof fn lemma_decimal_text_denotes(n: nat)
    ensures
        decimal_text(n).len() > 0,
        all_digits(decimal_text(n), 10),
        digits_value(decimal_text(n), 10) == n,
    decreases n,
{
    let text = decimal_text(n);
    let last = digit_char(n % 10);
    assert(digit(last, 10) == Some(n % 10));
    if n < 10 {
        assert(text.drop_last() =~= Seq::<char>::empty());
        assert(digits_value(text.drop_last(), 10) == 0);
    } else {
        lemma_decimal_text_denotes(n / 10);
        assert(text.drop_last() =~= decimal_text(n / 10));
        assert forall|i: int| 0 <= i < text.len() implies (#[trigger] digit(text[i], 10)) is Some by {
            if i < text.len() - 1 {
                assert(text[i] == decimal_text(n / 10)[i]);
            }
        }
    }
}

/// The decimal text of a number reads back as that number.
pub proof fn lemma_decimal_text_reads_back(n: nat, max: nat)
    requires
        n <= max,
    ensures
        parse_unsigned(decimal_text(n), 10, max) == Some(n),
{
    lemma_decimal_text_denotes(n);
    assert(digit(decimal_text(n)[0], 10) is Some);
}

/// The value of the digit `c` in base `radix`, which is 10 or 16.
fn digit_of(c: char, radix: u32) -> (r: Option<u32>)
    requires
        radix == 10 || radix == 16,
    ensures
        match r {
            Some(d) => digit(c, radix as nat) == Some(d as nat) && d < radix,
            None => digit(c, radix as nat) is None,
        },
{
    let d: u32 = if '0' <= c && c <= '9' {
        c as u32 - '0' as u32
    } else if 'a' <= c && c <= 'f' {
        c as u32 - 'a' as u32 + 10
    } else if 'A' <= c && c <= 'F' {
        c as u32 - 'A' as u32 + 10
    } else {
        return None;
    };
    if d < radix {
        Some(d)
    } else {
        None
    }
}

/// Reads `v[from..to]` as a run of digits in base `radix` whose value is at
/// most `max`.
fn read_digits(v: &Vec<char>, from: usize, to: usize, radix: u32, max: u64) -> (r: Option<u64>)
    requires
        from <= to <= v.len(),
        radix == 10 || radix == 16,
    ensures
        ({
            let run = v@.subrange(from as int, to as int);
            let good = run.len() > 0 && all_digits(run, radix as nat) && digits_value(
                run,
                radix as nat,
            ) <= max;
            match r {
                Some(n) => good && n == digits_value(run, radix as nat),
                None => !good,
            }
        }),
{
    if from == to {
        return None;
    }
    let ghost run = v@.subrange(from as int, to as int);
    let mut acc: u128 = 0;
    let mut i: usize = from;
    assert(digits_value(run.take(0), radix as nat) == 0);
    while i < to
        invariant
            from <= i <= to <= v.len(),
            radix == 10 || radix == 16,
            run == v@.subrange(from as int, to as int),
            all_digits(run.take(i - from), radix as nat),
            acc == digits_value(run.take(i - from), radix as nat),
            acc <= max,
        decreases to - i,
    {
        let ghost seen = run.take(i - from);
        let ghost next = run.take(i + 1 - from);
        assert(next.drop_last() =~= seen);
        assert(next.last() == v@[i as int]);
        match digit_of(v[i], radix) {
            None => {
                assert(digit(run[i - from], radix as nat) is None);
                return None;
            },
            Some(d) => {
                assert(acc * (radix as u128) <= 0xffff_ffff_ffff_ffff * 16) by (nonlinear_arith)
                    requires
                        acc <= 0xffff_ffff_ffff_ffff,
                        radix <= 16,
                ;
                acc = acc * (radix as u128) + (d as u128);
                assert(acc == digits_value(next, radix as nat));
                assert forall|j: int| 0 <= j < next.len() implies (#[trigger] digit(
                    next[j],
                    radix as nat,
                )) is Some by {
                    if j < seen.len() {
                        assert(next[j] == seen[j]);
                    }
                }
                if acc > max as u128 {
                    proof {
                        lemma_prefix_value_is_smaller(run, i + 1 - from, radix as nat);
                    }
                    return None;
                }
            },
        }
        i = i + 1;
    }
    assert(run.take(i - from) =~= run);
    Some(acc as u64)
}

/// Reads `v[from..to]` as an unsigned number in base `radix` that fits in
/// 32 bits.
pub(crate) fn read_u32(v: &Vec<char>, from: usize, to: usize, radix: u32) -> (r: Option<u32>)
    requires
        from <= to <= v.len(),
        radix == 10 || radix == 16,
    ensures
        match r {
            Some(n) => parse_unsigned(v@.subrange(from as int, to as int), radix as nat, 0xffff_ffff)
                == Some(n as nat),
            None => parse_unsigned(v@.subrange(from as int, to as int), radix as nat, 0xffff_ffff)
                is None,
        },
{
    let ghost s = v@.subrange(from as int, to as int);
    let start: usize = if from < to && v[from] == '+' {
        from + 1
    } else {
        from
    };
    assert(v@.subrange(start as int, to as int) =~= without_plus(s));
    match read_digits(v, start, to, radix, 0xffff_ffff) {
        Some(n) => Some(n as u32),
        None => None,
    }
}

/// Reads `s` as an unsigned decimal number that fits in 32 bits.
pub fn parse_u32(s: &str) -> (r: Option<u32>)
    ensures
        match r {
            Some(n) => parse_unsigned(s@, 10, 0xffff_ffff) == Some(n as nat),
            None => parse_unsigned(s@, 10, 0xffff_ffff) is None,
        },
{
    let v = chars_of(s);
    assert(v@.subrange(0, v@.len() as int) =~= s@);
    read_u32(&v, 0, v.len(), 10)
}

/// Reads `s` as an unsigned hexadecimal number that fits in 32 bits.
pub fn parse_hex_u32(s: &str) -> (r: Option<u32>)
    ensures
        match r {
            Some(n) => parse_unsigned(s@, 16, 0xffff_ffff) == Some(n as nat),
            None => parse_unsigned(s@, 16, 0xffff_ffff) is None,
        },
{
    let v = chars_of(s);
    assert(v@.subrange(0, v@.len() as int) =~= s@);
    read_u32(&v, 0, v.len(), 16)
}

/// Reads `s` as a signed decimal number that fits in 64 bits.
pub fn parse_i64(s: &str) -> (r: Option<i64>)
    ensures
        match r {
            Some(n) => parse_signed(s@, i64::MIN as int, i64::MAX as int) == Some(n as int),
            None => parse_signed(s@, i64::MIN as int, i64::MAX as int) is None,
        },
{
    let v = chars_of(s);
    let len = v.len();
    if len > 0 && v[0] == '-' {
        assert(v@.subrange(1, len as int) =~= s@.skip(1));
        match read_digits(&v, 1, len, 10, 0x8000_0000_0000_0000) {
            Some(m) => {
                if m == 0x8000_0000_0000_0000 {
                    Some(i64::MIN)
                } else {
                    Some(-(m as i64))
                }
            },
            None => None,
        }
    } else {
        let start: usize = if len > 0 && v[0] == '+' {
            1
        } else {
            0
        };
        assert(v@.subrange(start as int, len as int) =~= without_plus(s@));
        match read_digits(&v, start, len, 10, 0x7fff_ffff_ffff_ffff) {
            Some(m) => Some(m as i64),
            None => None,
        }
    }
}

/// The text of one decimal digit.
fn digit_text(d: u32) -> (t: &'static str)
    requires
        d < 10,
    ensures
        t@ == seq![digit_char(d as nat)],
{
    proof {
        reveal_strlit("0");
        reveal_strlit("1");
        reveal_strlit("2");
        reveal_strlit("3");
        reveal_strlit("4");
        reveal_strlit("5");
        reveal_strlit("6");
        reveal_strlit("7");
        reveal_strlit("8");
        reveal_strlit("9");
    }
    let t = if d == 0 {
        "0"
    } else if d == 1 {
        "1"
    } else if d == 2 {
        "2"
    } else if d == 3 {
        "3"
    } else if d == 4 {
        "4"
    } else if d == 5 {
        "5"
    } else if d == 6 {
        "6"
    } else if d == 7 {
        "7"
    } else if d == 8 {
        "8"
    } else {
        "9"
    };
    assert(t@ =~= seq![digit_char(d as nat)]);
    t
}

/// Writes `n` in decimal at the end of `out`.
fn push_decimal(n: u64, out: &mut String)
    ensures
        final(out)@ == old(out)@ + decimal_text(n as nat),
    decreases n,
{
    if n >= 10 {
        push_decimal(n / 10, out);
    }
    out.append(digit_text((n % 10) as u32));
}

/// `n` in decimal.
pub fn to_decimal(n: u64) -> (s: String)
    ensures
        s@ == decimal_text(n as nat),
{
    let mut s = String::new();
    push_decimal(n, &mut s);
    s
}

} // verus!
