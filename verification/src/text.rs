//! Text by its characters: whitespace and trimming, comparison without
//! regard to case, and decimal digits.

use vstd::prelude::*;
use vstd::std_specs::iter::IteratorSpec;

verus! {

/// The text of each of `strings`, in order.
pub open spec fn texts_of(strings: Seq<String>) -> Seq<Seq<char>> {
    Seq::new(strings.len(), |i: int| strings[i]@)
}

/// The characters that Unicode gives the property `White_Space`.
pub open spec fn is_white_space(c: char) -> bool {
    ||| '\u{9}' <= c <= '\u{d}'
    ||| c == ' '
    ||| c == '\u{85}'
    ||| c == '\u{a0}'
    ||| c == '\u{1680}'
    ||| '\u{2000}' <= c <= '\u{200a}'
    ||| c == '\u{2028}'
    ||| c == '\u{2029}'
    ||| c == '\u{202f}'
    ||| c == '\u{205f}'
    ||| c == '\u{3000}'
}

/// Tells whether `c` is whitespace.
pub fn is_whitespace(c: char) -> (r: bool)
    ensures
        r == is_white_space(c),
{
    ('\u{9}' <= c && c <= '\u{d}') || c == ' ' || c == '\u{85}' || c == '\u{a0}' || c
        == '\u{1680}' || ('\u{2000}' <= c && c <= '\u{200a}') || c == '\u{2028}' || c
        == '\u{2029}' || c == '\u{202f}' || c == '\u{205f}' || c == '\u{3000}'
}

/// Whether every character of `s` is whitespace.
pub open spec fn all_white_space(s: Seq<char>) -> bool {
    forall|i: int| 0 <= i < s.len() ==> is_white_space(#[trigger] s[i])
}

/// `s` without its leading whitespace.
pub open spec fn trim_start(s: Seq<char>) -> Seq<char>
    decreases s.len(),
{
    if s.len() > 0 && is_white_space(s[0]) {
        trim_start(s.drop_first())
    } else {
        s
    }
}

/// `s` without its trailing whitespace.
pub open spec fn trim_end(s: Seq<char>) -> Seq<char>
    decreases s.len(),
{
    if s.len() > 0 && is_white_space(s.last()) {
        trim_end(s.drop_last())
    } else {
        s
    }
}

/// `s` without the whitespace around it.
pub open spec fn trimmed(s: Seq<char>) -> Seq<char> {
    trim_end(trim_start(s))
}

/// Dropping a whitespace prefix does not change what `trim_start` gives.
pub proof fn lemma_trim_start_skips(s: Seq<char>, a: int)
    requires
        0 <= a <= s.len(),
        all_white_space(s.subrange(0, a)),
    ensures
        trim_start(s) == trim_start(s.subrange(a, s.len() as int)),
    decreases a,
{
    if a == 0 {
        assert(s.subrange(0, s.len() as int) == s);
    } else {
        assert(s.subrange(0, a)[0] == s[0]);
        let rest = s.drop_first();
        assert forall|i: int| 0 <= i < a - 1 implies is_white_space(
            #[trigger] rest.subrange(0, a - 1)[i],
        ) by {
            assert(rest.subrange(0, a - 1)[i] == s.subrange(0, a)[i + 1]);
        }
        lemma_trim_start_skips(rest, a - 1);
        assert(rest.subrange(a - 1, rest.len() as int) == s.subrange(a, s.len() as int));
    }
}

/// Dropping a whitespace suffix does not change what `trim_end` gives.
pub proof fn lemma_trim_end_skips(s: Seq<char>, b: int)
    requires
        0 <= b <= s.len(),
        all_white_space(s.subrange(b, s.len() as int)),
    ensures
        trim_end(s) == trim_end(s.subrange(0, b)),
    decreases s.len() - b,
{
    if b == s.len() {
        assert(s.subrange(0, b) == s);
    } else {
        assert(s.subrange(b, s.len() as int)[s.len() - b - 1] == s.last());
        let rest = s.drop_last();
        assert forall|i: int| 0 <= i < rest.len() - b implies is_white_space(
            #[trigger] rest.subrange(b, rest.len() as int)[i],
        ) by {
            assert(rest.subrange(b, rest.len() as int)[i] == s.subrange(b, s.len() as int)[i]);
        }
        lemma_trim_end_skips(rest, b);
        assert(rest.subrange(0, b) == s.subrange(0, b));
    }
}

/// Text that neither starts nor ends with whitespace is its own trimmed text.
pub proof fn lemma_trimmed_is_fixed(s: Seq<char>)
    requires
        s.len() > 0 ==> !is_white_space(s[0]) && !is_white_space(s.last()),
    ensures
        trimmed(s) == s,
{
}

/// The characters of `s`, in order.
pub fn chars_of(s: &str) -> (r: Vec<char>)
    ensures
        r@ == s@,
{
    let mut it = s.chars();
    let mut out: Vec<char> = Vec::new();
    loop
        invariant_except_break
            out@ + it.remaining() == s@,
            it.decrease() is Some,
        ensures
            out@ == s@,
        decreases it.decrease()->0,
    {
        let ghost before = it.remaining();
        match it.next() {
            Some(c) => {
                out.push(c);
                assert(out@ + it.remaining() == s@) by {
                    assert(before == seq![c] + before.drop_first());
                }
            },
            None => {
                assert(out@ + before == out@);
                break ;
            },
        }
    }
    out
}

/// Where the trimmed text starts and ends in `chars`.
pub fn trim_bounds(chars: &Vec<char>) -> (r: (usize, usize))
    ensures
        r.0 <= r.1 <= chars.len(),
        chars@.subrange(r.0 as int, r.1 as int) == trimmed(chars@),
{
    let n = chars.len();
    let mut a: usize = 0;
    while a < n && is_whitespace(chars[a])
        invariant
            a <= n,
            n == chars.len(),
            all_white_space(chars@.subrange(0, a as int)),
        decreases n - a,
    {
        a += 1;
    }
    let mut b: usize = n;
    while b > a && is_whitespace(chars[b - 1])
        invariant
            a <= b <= n,
            n == chars.len(),
            all_white_space(chars@.subrange(b as int, n as int)),
        decreases b,
    {
        proof {
            let wide = chars@.subrange(b - 1, n as int);
            assert forall|i: int| 0 <= i < wide.len() implies is_white_space(#[trigger] wide[i]) by {
                if i > 0 {
                    assert(wide[i] == chars@.subrange(b as int, n as int)[i - 1]);
                }
            }
        }
        b -= 1;
    }
    proof {
        let s = chars@;
        let tail = s.subrange(a as int, n as int);
        lemma_trim_start_skips(s, a as int);
        assert(trim_start(s) == tail) by {
            if a < n {
                assert(tail[0] == s[a as int]);
            }
        }
        assert forall|i: int| 0 <= i < n - b implies is_white_space(
            #[trigger] tail.subrange(b - a, tail.len() as int)[i],
        ) by {
            assert(tail.subrange(b - a, tail.len() as int)[i] == s.subrange(
                b as int,
                n as int,
            )[i]);
        }
        lemma_trim_end_skips(tail, b - a);
        let mid = tail.subrange(0, b - a);
        assert(mid == s.subrange(a as int, b as int));
        assert(trim_end(mid) == mid) by {
            if a < b {
                assert(mid.last() == s[b - 1]);
            }
        }
    }
    (a, b)
}

/// `c` with an ASCII capital letter turned into its small letter.
pub open spec fn ascii_lower(c: char) -> char {
    if 'A' <= c <= 'Z' {
        ((c as u8) + 32) as char
    } else {
        c
    }
}

/// Whether `a` and `b` are the same text but for the case of ASCII letters.
pub open spec fn eq_ignore_case(a: Seq<char>, b: Seq<char>) -> bool {
    &&& a.len() == b.len()
    &&& forall|i: int| 0 <= i < a.len() ==> ascii_lower(#[trigger] a[i]) == ascii_lower(b[i])
}

/// Turns an ASCII capital letter into its small letter.
pub fn to_ascii_lower(c: char) -> (r: char)
    ensures
        r == ascii_lower(c),
{
    if 'A' <= c && c <= 'Z' {
        ((c as u8) + 32u8) as char
    } else {
        c
    }
}

/// Compares `a` with `b` without regard to the case of ASCII letters.
pub fn eq_ignore_ascii_case(a: &Vec<char>, b: &str) -> (r: bool)
    ensures
        r == eq_ignore_case(a@, b@),
{
    let other = chars_of(b);
    if a.len() != other.len() {
        return false;
    }
    let mut i: usize = 0;
    while i < a.len()
        invariant
            i <= a.len(),
            a.len() == other.len(),
            other@ == b@,
            forall|k: int| 0 <= k < i ==> ascii_lower(#[trigger] a[k]) == ascii_lower(other[k]),
        decreases a.len() - i,
    {
        if to_ascii_lower(a[i]) != to_ascii_lower(other[i]) {
            return false;
        }
        i += 1;
    }
    true
}

/// The decimal digit of `d`, for `d` below ten.
pub open spec fn digit_char(d: nat) -> char {
    ((48 + d) as u8) as char
}

/// `n` in decimal digits, without leading zeros.
pub open spec fn decimal_digits(n: nat) -> Seq<char>
    decreases n,
{
    if n < 10 {
        seq![digit_char(n)]
    } else {
        decimal_digits(n / 10).push(digit_char(n % 10))
    }
}

} // verus!
