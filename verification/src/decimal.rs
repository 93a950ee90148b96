//! Signed decimal numerals: what they denote, how one is read into an `i32`
//! and how an `i32` is written as one.

use vstd::prelude::*;
use crate::text::to_chars;

verus! {

/// Whether `c` is one of the ten ASCII digits.
pub open spec fn is_digit(c: char) -> bool {
    0x30 <= c as u32 <= 0x39
}

/// The number that the digit `c` stands for.
pub open spec fn digit_value(c: char) -> int
    recommends
        is_digit(c),
{
    c as u32 - 0x30
}

/// The digit that stands for `d`.
pub open spec fn digit_char(d: int) -> char
    recommends
        0 <= d < 10,
{
    (0x30 + d) as char
}

/// Whether `s` is made of ASCII digits only.
pub open spec fn all_digits(s: Seq<char>) -> bool {
    forall|i: int| 0 <= i < s.len() ==> is_digit(#[trigger] s[i])
}

/// The number that a run of digits denotes in base ten, the most significant
/// digit first. The empty run denotes zero.
pub open spec fn digits_value(s: Seq<char>) -> int
    decreases s.len(),
{
    if s.len() == 0 {
        0
    } else {
        10 * digits_value(s.drop_last()) + digit_value(s.last())
    }
}

/// The length of the sign at the beginning of `s`: one for a `+` or a `-`,
/// zero where there is none.
pub open spec fn sign_len(s: Seq<char>) -> int {
    if s.len() > 0 && (s[0] == '-' || s[0] == '+') {
        1
    } else {
        0
    }
}

/// Whether `s` is a numeral: an optional sign followed by at least one digit
/// and nothing else.
pub open spec fn is_numeral(s: Seq<char>) -> bool {
    let body = s.skip(sign_len(s));
    body.len() > 0 && all_digits(body)
}

/// The integer that the numeral `s` denotes.
pub open spec fn numeral_value(s: Seq<char>) -> int
    recommends
        is_numeral(s),
{
    let magnitude = digits_value(s.skip(sign_len(s)));
    if s.len() > 0 && s[0] == '-' {
        -magnitude
    } else {
        magnitude
    }
}

/// What reading `s` as an `i32` gives: the value of the numeral, or nothing
/// where `s` is no numeral or denotes an integer that an `i32` cannot hold.
pub open spec fn parsed_i32(s: Seq<char>) -> Option<i32> {
    if is_numeral(s) && i32::MIN <= numeral_value(s) <= i32::MAX {
        Some(numeral_value(s) as i32)
    } else {
        None
    }
}

/// The digits of `n` in base ten, without leading zeros.
pub open spec fn digits_of(n: nat) -> Seq<char>
    decreases n,
{
    if n < 10 {
        seq![digit_char(n as int)]
    } else {
        digits_of(n / 10).push(digit_char((n % 10) as int))
    }
}

/// The numeral that is written for `v`: its digits, behind a `-` where it
/// is negative.
pub open spec fn numeral(v: int) -> Seq<char> {
    if v < 0 {
        seq!['-'] + digits_of((-v) as nat)
    } else {
        digits_of(v as nat)
    }
}

/// A run of digits denotes at least what any beginning of it denotes, and
/// never a negative number.
pub proof fn lemma_digits_value_grows(s: Seq<char>, k: int)
    requires
        all_digits(s),
        0 <= k <= s.len(),
    ensures
        0 <= digits_value(s.take(k)) <= digits_value(s),
    decreases s.len(),
{
    if k == s.len() {
        assert(s.take(k) =~= s);
        if s.len() > 0 {
            lemma_digits_value_grows(s.drop_last(), k - 1);
        }
    } else {
        lemma_digits_value_grows(s.drop_last(), k);
        assert(s.drop_last().take(k) =~= s.take(k));
    }
}

/// The digits written for `n` are digits, at least one of them, and denote
/// `n`.
pub proof fn lemma_digits_of_denotes(n: nat)
    ensures
        digits_of(n).len() > 0,
        all_digits(digits_of(n)),
        digits_value(digits_of(n)) == n,
    decreases n,
{
    if n < 10 {
        assert(digits_value(digits_of(n).drop_last()) == 0);
    } else {
        lemma_digits_of_denotes(n / 10);
        assert(digits_of(n).drop_last() =~= digits_of(n / 10));
    }
}

/// Writing an integer and reading the numeral back gives the integer.
pub proof fn lemma_numeral_denotes(v: int)
    ensures
        is_numeral(numeral(v)),
        numeral_value(numeral(v)) == v,
{
    if v < 0 {
        let magnitude = (-v) as nat;
        lemma_digits_of_denotes(magnitude);
        assert(numeral(v).skip(1) =~= digits_of(magnitude));
    } else {
        lemma_digits_of_denotes(v as nat);
        assert(numeral(v).skip(0) =~= numeral(v));
    }
}

/// Reading what was written for an `i32` gives that `i32` back.
pub proof fn lemma_written_i32_parses(v: i32)
    ensures
        parsed_i32(numeral(v as int)) == Some(v),
{
    lemma_numeral_denotes(v as int);
}

/// Tells whether `c` is an ASCII digit.
pub fn is_ascii_digit(c: char) -> (b: bool)
    ensures
        b == is_digit(c),
{
    let n: u32 = c as u32;
    0x30 <= n && n <= 0x39
}

/// Reads `s` as an `i32` in base ten. The whole of `s` has to be a numeral:
/// an optional `+` or `-`, then digits only, with no whitespace anywhere.
/// Leading zeros are allowed. A numeral whose value an `i32` cannot hold is
/// not read.
pub fn parse_i32(s: &str) -> (r: Option<i32>)
    ensures
        r == parsed_i32(s@),
{
    let chars = to_chars(s);
    let n: usize = chars.len();
    if n == 0 {
        return None;
    }
    let negative: bool = chars[0] == '-';
    let start: usize = if negative || chars[0] == '+' {
        1
    } else {
        0
    };
    if start == n {
        return None;
    }
    let ghost body = s@.skip(start as int);
    let mut magnitude: i64 = 0;
    let mut i: usize = start;
    while i < n
        invariant
            chars@ == s@,
            n == chars.len(),
            start == sign_len(s@),
            body == s@.skip(start as int),
            start <= i <= n,
            all_digits(body.take(i - start)),
            magnitude == digits_value(body.take(i - start)),
            0 <= magnitude <= 0x8000_0000,
        decreases n - i,
    {
        let c: char = chars[i];
        if !is_ascii_digit(c) {
            assert(body[i - start] == c);
            return None;
        }
        assert(body.take(i + 1 - start).drop_last() =~= body.take(i - start));
        magnitude = magnitude * 10 + (c as u32 - 0x30) as i64;
        if magnitude > 0x8000_0000 {
            proof {
                if all_digits(body) {
                    lemma_digits_value_grows(body, i + 1 - start);
                }
            }
            return None;
        }
        i += 1;
    }
    assert(body.take(n - start) =~= body);
    if negative {
        Some((-magnitude) as i32)
    } else if magnitude > 0x7fff_ffff {
        None
    } else {
        Some(magnitude as i32)
    }
}

/// The text of a single digit.
fn digit_text(d: u32) -> (r: &'static str)
    requires
        d < 10,
    ensures
        r@ == seq![digit_char(d as int)],
{
    proof {
        reveal_strlit("0");
        reveal_strlit("1");
        reveal_strlit("2");
        reveal_strlit("3");
        reveal_strlit("4");
        reveal_strlit("5");
        reveal_strlit("6");
        reveal_strlit("7");
        reveal_strlit("8");
        reveal_strlit("9");
    }
    match d {
        0 => "0",
        1 => "1",
        2 => "2",
        3 => "3",
        4 => "4",
        5 => "5",
        6 => "6",
        7 => "7",
        8 => "8",
        _ => "9",
    }
}

/// Appends the digits of `n` to `out`.
fn push_digits(out: &mut String, n: u32)
    ensures
        final(out)@ == old(out)@ + digits_of(n as nat),
    decreases n,
{
    if n >= 10 {
        push_digits(out, n / 10);
    }
    out.append(digit_text(n % 10));
}

/// Writes `v` in base ten: a `-` where it is negative, then its digits
/// without leading zeros.
pub fn render_i32(v: i32) -> (r: String)
    ensures
        r@ == numeral(v as int),
{
    let mut out = String::new();
    if v < 0 {
        proof {
            reveal_strlit("-");
        }
        out.append("-");
        let magnitude: i64 = -(v as i64);
        push_digits(&mut out, magnitude as u32);
    } else {
        push_digits(&mut out, v as u32);
    }
    out
}

} // verus!
