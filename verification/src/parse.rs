use vstd::prelude::*;
use vstd::string::*;
use crate::error::EngineError;

verus! {

/// Whether `c` is one of the ten ASCII digits.
pub open spec fn is_digit(c: char) -> bool {
    '0' <= c && c <= '9'
}

/// The number that a digit stands for.
pub open spec fn digit_value(c: char) -> int {
    c as u32 - 0x30
}

/// Whether every character of `s` is a digit.
pub open spec fn all_digits(s: Seq<char>) -> bool {
    forall|i: int| 0 <= i < s.len() ==> is_digit(#[trigger] s[i])
}

/// The number that a run of decimal digits writes, most significant
/// digit first. Leading zeros count for nothing.
pub open spec fn digits_value(s: Seq<char>) -> int
    decreases s.len(),
{
    if s.len() == 0 {
        0
    } else {
        digits_value(s.drop_last()) * 10 + digit_value(s.last())
    }
}

/// Whether `c` is a plus or a minus sign.
pub open spec fn is_sign(c: char) -> bool {
    c == '-' || c == '+'
}

/// The digits of a text: everything after the sign, if it has one.
pub open spec fn digits_of(text: Seq<char>) -> Seq<char> {
    if text.len() > 0 && is_sign(text[0]) {
        text.subrange(1, text.len() as int)
    } else {
        text
    }
}

/// The integer that a text writes in decimal: an optional `+` or `-`,
/// then at least one digit and nothing else. No spaces, no separators.
pub open spec fn decimal_value(text: Seq<char>) -> Option<int> {
    let digits = digits_of(text);
    if digits.len() > 0 && all_digits(digits) {
        if text[0] == '-' {
            Some(-digits_value(digits))
        } else {
            Some(digits_value(digits))
        }
    } else {
        None
    }
}

/// The 32-bit value that a text writes, if it writes one that fits.
pub open spec fn parse_i32_spec(text: Seq<char>) -> Option<i32> {
    match decimal_value(text) {
        Some(v) => if i32::MIN <= v <= i32::MAX {
            Some(v as i32)
        } else {
            None
        },
        None => None,
    }
}

/// The value of digits never shrinks when more digits follow.
pub proof fn lemma_digits_value_grows(s: Seq<char>, j: int)
    requires
        0 <= j <= s.len(),
        all_digits(s),
    ensures
        0 <= digits_value(s.take(j)) <= digits_value(s),
    decreases s.len() - j,
{
    if j == s.len() {
        assert(s.take(j) =~= s);
        lemma_digits_value_nonnegative(s);
    } else {
        lemma_digits_value_grows(s, j + 1);
        let longer = s.take(j + 1);
        assert(longer.drop_last() =~= s.take(j));
        assert(longer.last() == s[j]);
        assert(is_digit(s[j]));
        lemma_digits_value_nonnegative(s.take(j));
    }
}

/// Digits never write a negative number.
pub proof fn lemma_digits_value_nonnegative(s: Seq<char>)
    requires
        all_digits(s),
    ensures
        0 <= digits_value(s),
    decreases s.len(),
{
    if s.len() > 0 {
        assert(is_digit(s.last()));
        lemma_digits_value_nonnegative(s.drop_last());
    }
}

/// Reads a signed decimal 32-bit integer. Every text that is not one, or
/// that writes a number outside the 32-bit range, is `InvalidInput`.
pub fn parse_i32(text: &str) -> (r: Result<i32, EngineError>)
    ensures
        r == match parse_i32_spec(text@) {
            Some(v) => Ok::<i32, EngineError>(v),
            None => Err::<i32, EngineError>(EngineError::InvalidInput),
        },
{
    if !text.is_ascii() {
        proof {
            lemma_not_ascii_not_decimal(text@);
        }
        return Err(EngineError::InvalidInput);
    }
    let bytes = text.as_bytes();
    proof {
        is_ascii_spec_bytes(text);
    }
    let n = bytes.len();
    if n == 0 {
        return Err(EngineError::InvalidInput);
    }
    let first = bytes[0];
    assert(first == text@[0] as u8);
    let negative = first == 0x2d;
    let start: usize = if first == 0x2d || first == 0x2b {
        1
    } else {
        0
    };
    let ghost digits = digits_of(text@);
    assert(digits =~= text@.subrange(start as int, n as int));
    if start == n {
        return Err(EngineError::InvalidInput);
    }
    let mut acc: u64 = 0;
    let mut i: usize = start;
    while i < n
        invariant
            start <= i <= n,
            n == text@.len(),
            n == bytes@.len(),
            digits == text@.subrange(start as int, n as int),
            digits == digits_of(text@),
            forall|k: int| 0 <= k < n ==> bytes@[k] == (#[trigger] text@[k]) as u8,
            is_ascii(text),
            all_digits(digits.take(i - start)),
            acc == digits_value(digits.take(i - start)),
            acc <= 0x8000_0000,
        decreases n - i,
    {
        let b = bytes[i];
        let ghost c = text@[i as int];
        assert(b == c as u8);
        assert('\0' <= c <= '\u{7f}');
        assert(digits[i - start] == c);
        if b < 0x30 || b > 0x39 {
            assert(!is_digit(c));
            assert(!all_digits(digits));
            return Err(EngineError::InvalidInput);
        }
        assert(is_digit(c));
        let ghost longer = digits.take(i - start + 1);
        proof {
            assert(longer.drop_last() =~= digits.take(i - start));
            assert(longer.last() == c);
            assert forall|k: int| 0 <= k < longer.len() implies is_digit(#[trigger] longer[k]) by {
                if k < i - start {
                    assert(digits.take(i - start)[k] == longer[k]);
                }
            }
        }
        acc = acc * 10 + (b - 0x30) as u64;
        assert(acc == digits_value(longer));
        if acc > 0x8000_0000 {
            proof {
                if all_digits(digits) {
                    lemma_digits_value_grows(digits, i - start + 1);
                }
            }
            return Err(EngineError::InvalidInput);
        }
        i += 1;
    }
    assert(digits.take(i - start) =~= digits);
    if negative {
        assert(text@[0] == '-');
        if acc == 0x8000_0000 {
            Ok(i32::MIN)
        } else {
            Ok(0 - (acc as i32))
        }
    } else {
        assert(text@[0] != '-');
        if acc > 0x7fff_ffff {
            Err(EngineError::InvalidInput)
        } else {
            Ok(acc as i32)
        }
    }
}

/// A text with a character outside ASCII writes no number.
proof fn lemma_not_ascii_not_decimal(text: Seq<char>)
    requires
        !vstd::utf8::is_ascii_chars(text),
    ensures
        decimal_value(text) is None,
{
    let i = choose|i: int| 0 <= i < text.len() && !('\0' <= #[trigger] text[i] <= '\u{7f}');
    let c = text[i];
    assert(!is_digit(c));
    assert(!is_sign(c));
    let digits = digits_of(text);
    if is_sign(text[0]) {
        assert(i >= 1);
        assert(digits[i - 1] == c);
    } else {
        assert(digits[i] == c);
    }
}

/// Whether a text is acceptable as the value of a write.
pub fn is_valid_value(text: &str) -> (ok: bool)
    ensures
        ok == parse_i32_spec(text@).is_some(),
{
    parse_i32(text).is_ok()
}

} // verus!
