//! Whitespace and trimming of lines of text.

use vstd::prelude::*;

verus! {

/// Whether `c` is a whitespace character: one of the code points that carry
/// the Unicode `White_Space` property.
pub open spec fn is_blank(c: char) -> bool {
    let n = c as u32;
    ||| 0x09 <= n <= 0x0D
    ||| n == 0x20
    ||| n == 0x85
    ||| n == 0xA0
    ||| n == 0x1680
    ||| 0x2000 <= n <= 0x200A
    ||| n == 0x2028
    ||| n == 0x2029
    ||| n == 0x202F
    ||| n == 0x205F
    ||| n == 0x3000
}

/// `s` without its leading whitespace.
pub open spec fn trim_start(s: Seq<char>) -> Seq<char>
    decreases s.len(),
{
    if s.len() > 0 && is_blank(s.first()) {
        trim_start(s.drop_first())
    } else {
        s
    }
}

/// `s` without its trailing whitespace.
pub open spec fn trim_end(s: Seq<char>) -> Seq<char>
    decreases s.len(),
{
    if s.len() > 0 && is_blank(s.last()) {
        trim_end(s.drop_last())
    } else {
        s
    }
}

/// `s` without its leading and trailing whitespace.
pub open spec fn trimmed(s: Seq<char>) -> Seq<char> {
    trim_end(trim_start(s))
}

/// Whether every character of `s` from position `from` up to, but not
/// including, position `to` is whitespace.
pub open spec fn blank_between(s: Seq<char>, from: int, to: int) -> bool {
    forall|i: int| from <= i < to ==> is_blank(#[trigger] s[i])
}

/// Whether `s` begins and ends with a character that is not whitespace, or
/// is empty.
pub open spec fn is_tight(s: Seq<char>) -> bool {
    s.len() > 0 ==> !is_blank(s.first()) && !is_blank(s.last())
}

/// Whether cutting `s` down to the positions `a..b` removes whitespace only,
/// and all the whitespace there is at either end.
pub open spec fn is_core(s: Seq<char>, a: int, b: int) -> bool {
    &&& 0 <= a <= b <= s.len()
    &&& blank_between(s, 0, a)
    &&& blank_between(s, b, s.len() as int)
    &&& is_tight(s.subrange(a, b))
}

/// Where the first `a` characters are whitespace and the next one is not,
/// `trim_start` removes exactly those.
proof fn lemma_trim_start_skips(s: Seq<char>, a: int)
    requires
        0 <= a <= s.len(),
        blank_between(s, 0, a),
        a < s.len() ==> !is_blank(s[a]),
    ensures
        trim_start(s) == s.skip(a),
    decreases a,
{
    if a > 0 {
        lemma_trim_start_skips(s.drop_first(), a - 1);
    }
}

/// Where everything from position `b` on is whitespace and the character
/// before it is not, `trim_end` keeps exactly what stands before `b`.
proof fn lemma_trim_end_takes(s: Seq<char>, b: int)
    requires
        0 <= b <= s.len(),
        blank_between(s, b, s.len() as int),
        0 < b ==> !is_blank(s[b - 1]),
    ensures
        trim_end(s) == s.take(b),
    decreases s.len() - b,
{
    if b < s.len() {
        lemma_trim_end_takes(s.drop_last(), b);
    }
}

/// The cut that `is_core` describes is the trimmed text: there is no other
/// way to remove all the whitespace at both ends and nothing else.
pub proof fn lemma_core_is_trimmed(s: Seq<char>, a: int, b: int)
    requires
        is_core(s, a, b),
    ensures
        trimmed(s) == s.subrange(a, b),
{
    if a == b {
        // Nothing is left: the whole of `s` is whitespace.
        lemma_trim_start_skips(s, s.len() as int);
    } else {
        lemma_trim_start_skips(s, a);
        lemma_trim_end_takes(s.skip(a), b - a);
    }
}

/// `trim_start` removes a run of whitespace from the beginning, up to the
/// first character that is none. The proof hands back the length of that
/// run.
proof fn lemma_trim_start_shape(s: Seq<char>) -> (a: int)
    ensures
        0 <= a <= s.len(),
        blank_between(s, 0, a),
        a < s.len() ==> !is_blank(s[a]),
        trim_start(s) == s.skip(a),
    decreases s.len(),
{
    if s.len() > 0 && is_blank(s.first()) {
        let t = s.drop_first();
        let k = lemma_trim_start_shape(t);
        assert forall|i: int| 0 <= i < k + 1 implies is_blank(#[trigger] s[i]) by {
            if i > 0 {
                assert(s[i] == t[i - 1]);
            }
        }
        k + 1
    } else {
        0
    }
}

/// `trim_end` removes a run of whitespace from the end, back to the last
/// character that is none. The proof hands back the position where that
/// run begins.
proof fn lemma_trim_end_shape(s: Seq<char>) -> (b: int)
    ensures
        0 <= b <= s.len(),
        blank_between(s, b, s.len() as int),
        0 < b ==> !is_blank(s[b - 1]),
        trim_end(s) == s.take(b),
    decreases s.len(),
{
    if s.len() > 0 && is_blank(s.last()) {
        let t = s.drop_last();
        let k = lemma_trim_end_shape(t);
        assert forall|i: int| k <= i < s.len() implies is_blank(#[trigger] s[i]) by {
            if i < t.len() {
                assert(s[i] == t[i]);
            }
        }
        k
    } else {
        s.len() as int
    }
}

/// Trimming keeps one stretch of the text and removes whitespace only: all
/// the whitespace in front of that stretch and all of it behind, so that
/// what is left neither begins nor ends with whitespace.
pub proof fn lemma_trimmed_is_core(s: Seq<char>) -> (cut: (int, int))
    ensures
        is_core(s, cut.0, cut.1),
        trimmed(s) == s.subrange(cut.0, cut.1),
        is_tight(trimmed(s)),
{
    let a = lemma_trim_start_shape(s);
    let t = s.skip(a);
    let k = lemma_trim_end_shape(t);
    let b = a + k;
    assert forall|i: int| b <= i < s.len() implies is_blank(#[trigger] s[i]) by {
        assert(s[i] == t[i - a]);
    }
    (a, b)
}

/// A text that neither begins nor ends with whitespace is left as it is.
pub proof fn lemma_tight_is_unchanged(s: Seq<char>)
    requires
        is_tight(s),
    ensures
        trimmed(s) == s,
{
    lemma_core_is_trimmed(s, 0, s.len() as int);
}

/// Trimming twice is trimming once.
pub proof fn lemma_trimmed_twice(s: Seq<char>)
    ensures
        trimmed(trimmed(s)) == trimmed(s),
{
    lemma_trimmed_is_core(s);
    lemma_tight_is_unchanged(trimmed(s));
}

/// Tells whether `c` is a whitespace character.
pub fn is_whitespace(c: char) -> (b: bool)
    ensures
        b == is_blank(c),
{
    let n: u32 = c as u32;
    (0x09 <= n && n <= 0x0D) || n == 0x20 || n == 0x85 || n == 0xA0 || n == 0x1680 || (0x2000
        <= n && n <= 0x200A) || n == 0x2028 || n == 0x2029 || n == 0x202F || n == 0x205F || n
        == 0x3000
}

/// The characters of `s`, in order.
pub fn to_chars(s: &str) -> (chars: Vec<char>)
    ensures
        chars@ == s@,
{
    let mut chars: Vec<char> = Vec::new();
    for c in it: s.chars()
        invariant
            it.seq() == s@,
            chars@ == s@.take(it.index()),
    {
        chars.push(c);
    }
    chars
}

/// The part of `s` that is left when the whitespace at its beginning and at
/// its end is removed. A line break counts as whitespace, and whitespace
/// inside the text stays.
pub fn trim(s: &str) -> (r: &str)
    ensures
        r@ == trimmed(s@),
{
    let chars = to_chars(s);
    let n: usize = chars.len();
    let mut a: usize = 0;
    while a < n && is_whitespace(chars[a])
        invariant
            n == chars.len(),
            a <= n,
            blank_between(chars@, 0, a as int),
        decreases n - a,
    {
        a += 1;
    }
    let mut b: usize = n;
    while b > a && is_whitespace(chars[b - 1])
        invariant
            n == chars.len(),
            a <= b <= n,
            blank_between(chars@, b as int, n as int),
        decreases b,
    {
        b -= 1;
    }
    proof {
        lemma_core_is_trimmed(s@, a as int, b as int);
    }
    s.substring_char(a, b)
}

} // verus!
