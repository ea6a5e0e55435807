//! Type inference for one cell of tabular text.

use crate::text::{
    chars_of, decimal_digits, digit_char, eq_ignore_ascii_case, eq_ignore_case, is_white_space,
    lemma_trimmed_is_fixed, trim_bounds, trimmed,
};
use crate::value::{is_finite, is_finite_bits, Value, ValueView};
use vstd::prelude::*;

verus! {

/// Whether `c` is a decimal digit.
pub open spec fn is_digit(c: char) -> bool {
    '0' <= c <= '9'
}

/// Whether `s` holds decimal digits and nothing else.
pub open spec fn all_digits(s: Seq<char>) -> bool {
    forall|i: int| 0 <= i < s.len() ==> is_digit(#[trigger] s[i])
}

/// The number that the decimal digits `s` write.
pub open spec fn decimal_value(s: Seq<char>) -> int
    decreases s.len(),
{
    if s.len() == 0 {
        0
    } else {
        decimal_value(s.drop_last()) * 10 + (s.last() as int - '0' as int)
    }
}

/// The integer that `s` writes: an optional `-`, then one or more decimal
/// digits and nothing else, with a value that fits in 64 bits.
pub open spec fn integer_of(s: Seq<char>) -> Option<int> {
    let negative = s.len() > 0 && s[0] == '-';
    let digits = if negative {
        s.drop_first()
    } else {
        s
    };
    let value = if negative {
        -decimal_value(digits)
    } else {
        decimal_value(digits)
    };
    if digits.len() > 0 && all_digits(digits) && i64::MIN <= value <= i64::MAX {
        Some(value)
    } else {
        None
    }
}

/// The boolean that `s` names, whatever the case of its letters.
pub open spec fn bool_literal(s: Seq<char>) -> Option<bool> {
    if eq_ignore_case(s, "true"@) || eq_ignore_case(s, "t"@) || eq_ignore_case(s, "yes"@)
        || eq_ignore_case(s, "y"@) || eq_ignore_case(s, "1"@) {
        Some(true)
    } else if eq_ignore_case(s, "false"@) || eq_ignore_case(s, "f"@) || eq_ignore_case(
        s,
        "no"@,
    ) || eq_ignore_case(s, "n"@) || eq_ignore_case(s, "0"@) {
        Some(false)
    } else {
        None
    }
}

/// The value that a cell stands for. `float_bits` is how the trimmed text
/// reads as a 64-bit float: the bit pattern, or `None` where it does not
/// read as one.
///
/// In order: nothing but whitespace is null; an integer is an integer; a
/// finite float is a float; a boolean literal is a boolean; anything else is
/// the text as it came, untrimmed.
pub open spec fn infer_spec(text: Seq<char>, float_bits: Option<u64>) -> ValueView {
    let t = trimmed(text);
    if t.len() == 0 {
        ValueView::Null
    } else if integer_of(t) is Some {
        ValueView::Integer(integer_of(t)->0)
    } else if float_bits is Some && is_finite_bits(float_bits->0) {
        ValueView::Float(float_bits->0)
    } else if bool_literal(t) is Some {
        ValueView::Bool(bool_literal(t)->0)
    } else {
        ValueView::Text(text)
    }
}

/// Whether `text` holds nothing but whitespace.
pub open spec fn is_blank(text: Seq<char>) -> bool {
    trimmed(text).len() == 0
}

/// Whether `text` is taken for a float: it is not blank, not an integer,
/// and its reading is that of a finite float.
pub open spec fn reads_as_float(text: Seq<char>, float_bits: Option<u64>) -> bool {
    &&& !is_blank(text)
    &&& integer_of(trimmed(text)) is None
    &&& float_bits is Some
    &&& is_finite_bits(float_bits->0)
}

/// Whether `text` is taken for a boolean: it is not blank, not an integer,
/// not a finite float, and a boolean literal.
pub open spec fn reads_as_bool(text: Seq<char>, float_bits: Option<u64>) -> bool {
    &&& !is_blank(text)
    &&& integer_of(trimmed(text)) is None
    &&& !reads_as_float(text, float_bits)
    &&& bool_literal(trimmed(text)) is Some
}

/// Digits write a number that is not negative, and no less than what any
/// of their prefixes writes.
pub proof fn lemma_decimal_value_grows(s: Seq<char>, k: int)
    requires
        all_digits(s),
        0 <= k <= s.len(),
    ensures
        0 <= decimal_value(s.subrange(0, k)) <= decimal_value(s),
    decreases s.len(),
{
    if s.len() == 0 {
        assert(s.subrange(0, k) == s);
    } else if k == s.len() {
        assert(s.subrange(0, k) == s);
        lemma_decimal_value_grows(s.drop_last(), k - 1);
        assert(is_digit(s.last()));
    } else {
        lemma_decimal_value_grows(s.drop_last(), k);
        assert(s.drop_last().subrange(0, k) == s.subrange(0, k));
        assert(is_digit(s.last()));
    }
}

/// Reads `chars[from..to]` as a signed 64-bit decimal integer.
pub fn parse_integer(chars: &Vec<char>, from: usize, to: usize) -> (r: Option<i64>)
    requires
        from <= to <= chars.len(),
    ensures
        r is Some <==> integer_of(chars@.subrange(from as int, to as int)) is Some,
        r is Some ==> r->0 == integer_of(chars@.subrange(from as int, to as int))->0,
{
    let ghost s = chars@.subrange(from as int, to as int);
    if from == to {
        return None;
    }
    let negative = chars[from] == '-';
    let start = if negative {
        from + 1
    } else {
        from
    };
    let ghost digits = chars@.subrange(start as int, to as int);
    proof {
        assert(s[0] == chars[from as int]);
        if negative {
            assert(digits == s.drop_first());
        } else {
            assert(digits == s);
        }
    }
    if start == to {
        return None;
    }
    // `acc` holds the negated value, so that the least integer can be reached.
    let mut acc: i64 = 0;
    let mut i: usize = start;
    while i < to
        invariant
            from <= start <= i <= to <= chars.len(),
            s == chars@.subrange(from as int, to as int),
            s.len() > 0,
            negative == (s[0] == '-'),
            digits == (if negative {
                s.drop_first()
            } else {
                s
            }),
            digits == chars@.subrange(start as int, to as int),
            all_digits(digits.subrange(0, i - start)),
            acc == -decimal_value(digits.subrange(0, i - start)),
            acc <= 0,
        decreases to - i,
    {
        let c = chars[i];
        let ghost before = digits.subrange(0, i - start);
        let ghost after = digits.subrange(0, i + 1 - start);
        proof {
            assert(after.drop_last() == before);
            assert(after.last() == c);
        }
        if !('0' <= c && c <= '9') {
            assert(!is_digit(digits[i - start]));
            return None;
        }
        let d: i64 = (c as u32 - '0' as u32) as i64;
        proof {
            assert(decimal_value(after) == decimal_value(before) * 10 + d);
            assert forall|k: int| 0 <= k < after.len() implies is_digit(#[trigger] after[k]) by {
                if k < before.len() {
                    assert(after[k] == before[k]);
                }
            }
        }
        let next = match acc.checked_mul(10) {
            Some(m) => m.checked_sub(d),
            None => None,
        };
        match next {
            Some(n) => {
                acc = n;
            },
            None => {
                proof {
                    assert(decimal_value(after) > 0x8000_0000_0000_0000);
                    if all_digits(digits) {
                        lemma_decimal_value_grows(digits, i + 1 - start);
                    }
                }
                return None;
            },
        }
        i += 1;
    }
    proof {
        assert(digits.subrange(0, to - start) == digits);
    }
    if negative {
        Some(acc)
    } else if acc == i64::MIN {
        None
    } else {
        Some(-acc)
    }
}

/// Reads `chars` as a boolean literal.
pub fn parse_bool(chars: &Vec<char>) -> (r: Option<bool>)
    ensures
        r == bool_literal(chars@),
{
    if eq_ignore_ascii_case(chars, "true") || eq_ignore_ascii_case(chars, "t")
        || eq_ignore_ascii_case(chars, "yes") || eq_ignore_ascii_case(chars, "y")
        || eq_ignore_ascii_case(chars, "1") {
        Some(true)
    } else if eq_ignore_ascii_case(chars, "false") || eq_ignore_ascii_case(chars, "f")
        || eq_ignore_ascii_case(chars, "no") || eq_ignore_ascii_case(chars, "n")
        || eq_ignore_ascii_case(chars, "0") {
        Some(false)
    } else {
        None
    }
}

/// The characters `chars[from..to]`.
pub fn slice_chars(chars: &Vec<char>, from: usize, to: usize) -> (r: Vec<char>)
    requires
        from <= to <= chars.len(),
    ensures
        r@ == chars@.subrange(from as int, to as int),
{
    let mut out: Vec<char> = Vec::new();
    let mut i: usize = from;
    while i < to
        invariant
            from <= i <= to <= chars.len(),
            out@ == chars@.subrange(from as int, i as int),
        decreases to - i,
    {
        out.push(chars[i]);
        i += 1;
    }
    out
}

/// Infers the value that the cell `text` stands for. `float_bits` is how the
/// trimmed text reads as a 64-bit float: the IEEE-754 bit pattern, or `None`
/// where it does not read as one.
pub fn infer_value_type(text: &str, float_bits: Option<u64>) -> (v: Value)
    ensures
        v@ == infer_spec(text@, float_bits),
        v@.wf(),
        is_blank(text@) ==> v@ == ValueView::Null,
        !is_blank(text@) && integer_of(trimmed(text@)) is Some ==> v@ == ValueView::Integer(
            integer_of(trimmed(text@))->0,
        ),
        reads_as_float(text@, float_bits) ==> v@ == ValueView::Float(float_bits->0),
        reads_as_bool(text@, float_bits) ==> v@ == ValueView::Bool(
            bool_literal(trimmed(text@))->0,
        ),
        !is_blank(text@) && integer_of(trimmed(text@)) is None && !reads_as_float(
            text@,
            float_bits,
        ) && !reads_as_bool(text@, float_bits) ==> v@ == ValueView::Text(text@),
{
    let chars = chars_of(text);
    let (a, b) = trim_bounds(&chars);
    if a == b {
        return Value::Null;
    }
    if let Some(n) = parse_integer(&chars, a, b) {
        return Value::Integer(n);
    }
    if let Some(bits) = float_bits {
        if is_finite(bits) {
            return Value::Float(bits);
        }
    }
    let t = slice_chars(&chars, a, b);
    if let Some(flag) = parse_bool(&t) {
        return Value::Bool(flag);
    }
    Value::String(text.to_owned())
}

/// `n` as it is written in decimal: a `-` before the digits of a negative one.
pub open spec fn integer_text(n: int) -> Seq<char> {
    if n < 0 {
        seq!['-'] + decimal_digits((-n) as nat)
    } else {
        decimal_digits(n as nat)
    }
}

/// The decimal digits of a number are digits, at least one, and write that
/// number.
pub proof fn lemma_decimal_digits_write(n: nat)
    ensures
        decimal_digits(n).len() > 0,
        all_digits(decimal_digits(n)),
        decimal_value(decimal_digits(n)) == n,
    decreases n,
{
    let digits = decimal_digits(n);
    if n < 10 {
        assert(digits.drop_last() == Seq::<char>::empty());
        assert(decimal_value(digits.drop_last()) == 0);
    } else {
        lemma_decimal_digits_write(n / 10);
        assert(digits.drop_last() == decimal_digits(n / 10));
        assert(digits.last() == digit_char(n % 10));
        assert forall|i: int| 0 <= i < digits.len() implies is_digit(#[trigger] digits[i]) by {
            if i < digits.len() - 1 {
                assert(digits[i] == decimal_digits(n / 10)[i]);
            }
        }
    }
}

/// Every 64-bit integer, written in decimal, is read back as itself.
pub proof fn lemma_integer_text_is_read_back(n: int)
    requires
        i64::MIN <= n <= i64::MAX,
    ensures
        integer_of(integer_text(n)) == Some(n),
{
    if n < 0 {
        lemma_decimal_digits_write((-n) as nat);
        assert(integer_text(n).drop_first() == decimal_digits((-n) as nat));
        assert(integer_text(n)[0] == '-');
    } else {
        lemma_decimal_digits_write(n as nat);
        assert(is_digit(decimal_digits(n as nat)[0]));
    }
}

/// The decimal text of an integer has no whitespace around it.
pub proof fn lemma_integer_text_is_trimmed(n: int)
    ensures
        trimmed(integer_text(n)) == integer_text(n),
{
    let text = integer_text(n);
    if n < 0 {
        lemma_decimal_digits_write((-n) as nat);
        let digits = decimal_digits((-n) as nat);
        assert(text.last() == digits.last());
        assert(is_digit(digits.last()));
        assert(text[0] == '-');
    } else {
        lemma_decimal_digits_write(n as nat);
        assert(is_digit(text[0]));
        assert(is_digit(text.last()));
    }
    assert(!is_white_space(text[0]));
    assert(!is_white_space(text.last()));
    lemma_trimmed_is_fixed(text);
}

/// A cell that holds a 64-bit integer in decimal, alone or with whitespace
/// around it, is inferred to be that integer, whatever its reading as a
/// float.
pub proof fn lemma_integer_cells_are_integers(text: Seq<char>, n: int, float_bits: Option<u64>)
    requires
        i64::MIN <= n <= i64::MAX,
        text == integer_text(n) || trimmed(text) == integer_text(n),
    ensures
        infer_spec(text, float_bits) == ValueView::Integer(n),
{
    lemma_integer_text_is_read_back(n);
    lemma_integer_text_is_trimmed(n);
    if n < 0 {
        lemma_decimal_digits_write((-n) as nat);
    } else {
        lemma_decimal_digits_write(n as nat);
    }
}

/// What is inferred is well formed: a float among it is finite.
pub proof fn lemma_inferred_is_well_formed(text: Seq<char>, float_bits: Option<u64>)
    ensures
        infer_spec(text, float_bits).wf(),
{
}

/// Inference looks at the cell alone: the same text with the same reading
/// is the same value.
pub proof fn lemma_inference_is_repeatable(
    text: Seq<char>,
    float_bits: Option<u64>,
    first: Value,
    second: Value,
)
    requires
        first@ == infer_spec(text, float_bits),
        second@ == infer_spec(text, float_bits),
    ensures
        first@ == second@,
{
}

} // verus!
