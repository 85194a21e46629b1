//! Decimal text of integers: the digits that the bot prints and the
//! numbers that it reads back out of user input and stored reminder times.
use vstd::prelude::*;
use crate::text::{chars_of, push_char};

verus! {

/// An ASCII decimal digit.
pub open spec fn is_digit(c: char) -> bool {
    '0' <= c && c <= '9'
}

/// The value of a decimal digit character.
pub open spec fn digit_value(c: char) -> int {
    c as int - '0' as int
}

/// The character of a decimal digit `d` (`0 <= d < 10`).
pub open spec fn digit_char(d: int) -> char {
    (d + 48) as char
}

pub open spec fn all_digits(s: Seq<char>) -> bool {
    forall|i: int| 0 <= i < s.len() ==> is_digit(#[trigger] s[i])
}

/// The number that a string of decimal digits denotes (leading zeros allowed).
pub open spec fn digits_value(s: Seq<char>) -> nat
    decreases s.len(),
{
    if s.len() == 0 {
        0
    } else {
        digits_value(s.drop_last()) * 10 + digit_value(s.last()) as nat
    }
}

/// The shortest decimal text of a natural number.
pub open spec fn decimal_text(n: nat) -> Seq<char>
    decreases n,
{
    if n < 10 {
        seq![digit_char(n as int)]
    } else {
        decimal_text(n / 10).push(digit_char((n % 10) as int))
    }
}

/// The text that Rust's `Display` writes for an integer: a minus sign for
/// negative numbers, then the shortest decimal digits of the magnitude.
pub open spec fn int_text(n: int) -> Seq<char> {
    if n < 0 {
        seq!['-'] + decimal_text((-n) as nat)
    } else {
        decimal_text(n as nat)
    }
}

/// The integer that a text denotes under the grammar of Rust's `FromStr`
/// for signed integers: an optional `+` or `-`, then at least one ASCII
/// digit, nothing else. The range of the target type is not applied here.
pub open spec fn signed_value(s: Seq<char>) -> Option<int> {
    if s.len() == 0 {
        None
    } else if s[0] == '-' || s[0] == '+' {
        let d = s.drop_first();
        if d.len() > 0 && all_digits(d) {
            if s[0] == '-' {
                Some(-(digits_value(d) as int))
            } else {
                Some(digits_value(d) as int)
            }
        } else {
            None
        }
    } else if all_digits(s) {
        Some(digits_value(s) as int)
    } else {
        None
    }
}

/// What `str::parse::<i32>` gives for a text: the value where the text is
/// well formed and the value fits in an `i32`.
pub open spec fn i32_value(s: Seq<char>) -> Option<int> {
    match signed_value(s) {
        Some(v) => if i32::MIN <= v <= i32::MAX { Some(v) } else { None },
        None => None,
    }
}

/// What `str::parse::<i64>` gives for a text.
pub open spec fn i64_value(s: Seq<char>) -> Option<int> {
    match signed_value(s) {
        Some(v) => if i64::MIN <= v <= i64::MAX { Some(v) } else { None },
        None => None,
    }
}

fn digit_to_char(d: u64) -> (c: char)
    requires
        d < 10,
    ensures
        c == digit_char(d as int),
        is_digit(c),
        digit_value(c) == d,
{
    ((d as u8) + 48u8) as char
}

fn char_is_digit(c: char) -> (b: bool)
    ensures
        b == is_digit(c),
{
    '0' <= c && c <= '9'
}

fn char_digit_value(c: char) -> (v: u8)
    requires
        is_digit(c),
    ensures
        v == digit_value(c),
        v < 10,
{
    ((c as u32) - 48) as u8
}

proof fn lemma_digit_char_value(d: int)
    requires
        0 <= d < 10,
    ensures
        is_digit(digit_char(d)),
        digit_value(digit_char(d)) == d,
{
}

/// The digits of `decimal_text(n)` are digits, there is at least one, and
/// they denote `n`.
pub proof fn lemma_decimal_text_value(n: nat)
    ensures
        decimal_text(n).len() > 0,
        all_digits(decimal_text(n)),
        digits_value(decimal_text(n)) == n,
    decreases n,
{
    if n < 10 {
        lemma_digit_char_value(n as int);
        let t = decimal_text(n);
        assert(t.drop_last() =~= Seq::<char>::empty());
        assert(digits_value(t.drop_last()) == 0);
        assert(t.last() == digit_char(n as int));
    } else {
        lemma_decimal_text_value(n / 10);
        lemma_digit_char_value((n % 10) as int);
        let t = decimal_text(n);
        assert(t.drop_last() =~= decimal_text(n / 10));
        assert(t.last() == digit_char((n % 10) as int));
        assert(digits_value(t) == (n / 10) * 10 + n % 10);
        assert(all_digits(t)) by {
            assert forall|i: int| 0 <= i < t.len() implies is_digit(#[trigger] t[i]) by {
                if i < t.len() - 1 {
                    assert(t[i] == decimal_text(n / 10)[i]);
                }
            }
        }
    }
}

/// A longer run of digits never denotes less than its prefix.
proof fn lemma_digits_value_prefix(s: Seq<char>, k: int)
    requires
        all_digits(s),
        0 <= k <= s.len(),
    ensures
        digits_value(s.take(k)) <= digits_value(s),
    decreases s.len(),
{
    if k < s.len() {
        let p = s.drop_last();
        assert(all_digits(p)) by {
            assert forall|i: int| 0 <= i < p.len() implies is_digit(#[trigger] p[i]) by {
                assert(p[i] == s[i]);
            }
        }
        assert(p.take(k) =~= s.take(k));
        lemma_digits_value_prefix(p, k);
        assert(is_digit(s[s.len() - 1]));
    } else {
        assert(s.take(k) =~= s);
    }
}

/// Step of the digit accumulation: extending a prefix by one digit.
proof fn lemma_digits_value_step(s: Seq<char>, k: int)
    requires
        0 <= k < s.len(),
    ensures
        digits_value(s.take(k + 1)) == digits_value(s.take(k)) * 10 + digit_value(s[k]) as nat,
{
    assert(s.take(k + 1).drop_last() =~= s.take(k));
}

/// Reads an unsigned run of digits `s[start..]`; `None` where a character
/// is not a digit, where there is none, or where the value exceeds `2^64`.
fn parse_digits(s: &Vec<char>, start: usize) -> (r: Option<u128>)
    requires
        start <= s.len(),
    ensures
        ({
            let d = s@.skip(start as int);
            match r {
                Some(v) => d.len() > 0 && all_digits(d) && v == digits_value(d) && v
                    <= 0x1_0000_0000_0000_0000,
                None => !(d.len() > 0 && all_digits(d) && digits_value(d)
                    <= 0x1_0000_0000_0000_0000),
            }
        }),
{
    let ghost d = s@.skip(start as int);
    if start == s.len() {
        return None;
    }
    let mut acc: u128 = 0;
    let mut i: usize = start;
    while i < s.len()
        invariant
            start <= i <= s.len(),
            d == s@.skip(start as int),
            all_digits(d.take(i - start)),
            acc == digits_value(d.take(i - start)),
            acc <= 0x1_0000_0000_0000_0000,
        decreases s.len() - i,
    {
        let c = s[i];
        if !char_is_digit(c) {
            assert(d[i - start] == c);
            return None;
        }
        let v = char_digit_value(c);
        proof {
            lemma_digits_value_step(d, i - start);
            assert(d[i - start] == c);
        }
        acc = acc * 10 + v as u128;
        assert(all_digits(d.take(i - start + 1))) by {
            let t = d.take(i - start + 1);
            assert forall|j: int| 0 <= j < t.len() implies is_digit(#[trigger] t[j]) by {
                if j < i - start {
                    assert(t[j] == d.take(i - start)[j]);
                }
            }
        }
        i = i + 1;
        if acc > 0x1_0000_0000_0000_0000 {
            proof {
                if all_digits(d) {
                    lemma_digits_value_prefix(d, i - start);
                }
            }
            return None;
        }
    }
    assert(d.take(i - start) =~= d);
    Some(acc)
}

/// Reads a signed integer from `s` under Rust's `FromStr` grammar and keeps it
/// only where it lies within `[lo, hi]`.
fn parse_signed_within(s: &Vec<char>, lo: i128, hi: i128) -> (r: Option<i128>)
    requires
        -0x8000_0000_0000_0000 <= lo <= hi <= 0x7fff_ffff_ffff_ffff,
    ensures
        match r {
            Some(v) => signed_value(s@) == Some(v as int) && lo <= v <= hi,
            None => !(signed_value(s@) matches Some(v) && lo <= v && v <= hi),
        },
{
    if s.len() == 0 {
        return None;
    }
    let first = s[0];
    let negative = first == '-';
    let start: usize = if first == '-' || first == '+' { 1 } else { 0 };
    assert(s@.skip(1) =~= s@.drop_first());
    assert(s@.skip(0) =~= s@);
    match parse_digits(s, start) {
        None => None,
        Some(m) => {
            let v: i128 = if negative { -(m as i128) } else { m as i128 };
            if lo <= v && v <= hi {
                Some(v)
            } else {
                None
            }
        },
    }
}

/// Parses a text as `str::parse::<i32>` does; `None` where that returns an error.
pub fn parse_i32(text: &str) -> (r: Option<i32>)
    ensures
        match r {
            Some(v) => i32_value(text@) == Some(v as int),
            None => i32_value(text@) is None,
        },
{
    let cs = chars_of(text);
    match parse_signed_within(&cs, i32::MIN as i128, i32::MAX as i128) {
        Some(v) => Some(v as i32),
        None => None,
    }
}

/// Parses a text as `str::parse::<i64>` does; `None` where that returns an error.
pub fn parse_i64(text: &str) -> (r: Option<i64>)
    ensures
        match r {
            Some(v) => i64_value(text@) == Some(v as int),
            None => i64_value(text@) is None,
        },
{
    let cs = chars_of(text);
    match parse_signed_within(&cs, i64::MIN as i128, i64::MAX as i128) {
        Some(v) => Some(v as i64),
        None => None,
    }
}

/// Appends the decimal digits of `n` to `s`.
fn append_decimal(s: &mut String, n: u64)
    ensures
        final(s)@ == old(s)@ + decimal_text(n as nat),
    decreases n,
{
    if n >= 10 {
        append_decimal(s, n / 10);
    }
    let c = digit_to_char(n % 10);
    push_char(s, c);
    proof {
        if n >= 10 {
            assert(old(s)@ + decimal_text(n as nat) =~= old(s)@ + decimal_text((n / 10) as nat)
                + seq![c]);
        }
    }
}

/// The text that `format!("{}", n)` gives for an `i64`.
pub fn format_i64(n: i64) -> (r: String)
    ensures
        r@ == int_text(n as int),
{
    let mut s = String::new();
    if n < 0 {
        push_char(&mut s, '-');
        let m: u64 = (-(n as i128)) as u64;
        append_decimal(&mut s, m);
    } else {
        append_decimal(&mut s, n as u64);
    }
    s
}

/// The text that `format!("{}", n)` gives for a `usize`.
pub fn format_usize(n: usize) -> (r: String)
    ensures
        r@ == int_text(n as int),
{
    let mut s = String::new();
    append_decimal(&mut s, n as u64);
    s
}

/// The text that `format!("{}", n)` gives for a `u64`.
pub fn format_u64(n: u64) -> (r: String)
    ensures
        r@ == int_text(n as int),
{
    let mut s = String::new();
    append_decimal(&mut s, n);
    s
}

/// The decimal text of a natural number that fits in an `i32` reads back as
/// that number under `str::parse::<i32>`, and consists of digits only.
pub proof fn lemma_i32_text_of_nat(n: nat)
    requires
        n <= i32::MAX,
    ensures
        i32_value(int_text(n as int)) == Some(n as int),
        int_text(n as int).len() > 0,
        all_digits(int_text(n as int)),
{
    lemma_decimal_text_value(n);
    let t = decimal_text(n);
    assert(is_digit(t[0]));
}

/// Printing an `i64` and reading the text back with `str::parse::<i64>`
/// gives the same number.
pub proof fn lemma_i64_text_round_trip(n: i64)
    ensures
        i64_value(int_text(n as int)) == Some(n as int),
{
    if n < 0 {
        let m = (-n) as nat;
        lemma_decimal_text_value(m);
        let t = int_text(n as int);
        assert(t.drop_first() =~= decimal_text(m));
    } else {
        lemma_decimal_text_value(n as nat);
        let t = decimal_text(n as nat);
        assert(t[0] != '-' && t[0] != '+') by {
            assert(is_digit(t[0]));
        }
    }
}

} // verus!
