//! Whole numbers as decimal text.

use vstd::prelude::*;
use vstd::string::StrSliceExecFns;

verus! {

/// The value of a decimal digit, or `None` for any other character.
pub open spec fn digit_value(c: char) -> Option<int> {
    if '0' <= c <= '9' {
        Some(c as int - '0' as int)
    } else {
        None
    }
}

/// The value of a run of decimal digits, most significant first; `None` where
/// a character is no digit. The empty run has value zero.
pub open spec fn digits_value(s: Seq<char>) -> Option<int>
    decreases s.len(),
{
    if s.len() == 0 {
        Some(0)
    } else {
        match (digits_value(s.drop_last()), digit_value(s.last())) {
            (Some(high), Some(low)) => Some(10 * high + low),
            _ => None,
        }
    }
}

/// Whether the text opens with a sign.
pub open spec fn is_signed(s: Seq<char>) -> bool {
    s.len() > 0 && (s[0] == '-' || s[0] == '+')
}

/// The number a text stands for: an optional `+` or `-`, then at least one
/// decimal digit and nothing else, with a value that fits 64 bits.
pub open spec fn integer_of_text(s: Seq<char>) -> Option<i64> {
    let body = if is_signed(s) {
        s.drop_first()
    } else {
        s
    };
    if body.len() == 0 {
        None
    } else {
        match digits_value(body) {
            None => None,
            Some(magnitude) => {
                let value = if s[0] == '-' {
                    -magnitude
                } else {
                    magnitude
                };
                if i64::MIN <= value <= i64::MAX {
                    Some(value as i64)
                } else {
                    None
                }
            },
        }
    }
}

/// The decimal digits of a number that is not negative, most significant
/// first.
pub open spec fn digits_text(n: nat) -> Seq<char>
    decreases n,
{
    if n < 10 {
        seq![('0' as u8 + n as u8) as char]
    } else {
        digits_text(n / 10).push(('0' as u8 + (n % 10) as u8) as char)
    }
}

/// The decimal text of a number: a `-` for a negative one, then its digits.
pub open spec fn integer_text(n: int) -> Seq<char> {
    if n < 0 {
        seq!['-'] + digits_text((-n) as nat)
    } else {
        digits_text(n as nat)
    }
}

/// Calls `to_string` of `i64`, which formats with `Display`. Trusted: the text
/// is the decimal notation of the number, with a leading `-` when negative.
#[verifier::external_body]
pub(crate) fn format_integer(n: i64) -> (s: String)
    ensures
        s@ == integer_text(n as int),
{
    n.to_string()
}

/// A run of digits is worth at least as much as any run it starts with, and is
/// never negative.
proof fn lemma_digits_grow(s: Seq<char>, k: int)
    requires
        0 <= k <= s.len(),
        digits_value(s) is Some,
    ensures
        digits_value(s.take(k)) is Some,
        0 <= digits_value(s.take(k))->0 <= digits_value(s)->0,
    decreases s.len() - k,
{
    if k == s.len() {
        assert(s.take(k) =~= s);
        lemma_digits_not_negative(s);
    } else {
        lemma_digits_grow(s.drop_last(), k);
        assert(s.drop_last().take(k) =~= s.take(k));
        lemma_digits_not_negative(s.drop_last());
    }
}

/// The value of a run of digits is never negative.
proof fn lemma_digits_not_negative(s: Seq<char>)
    requires
        digits_value(s) is Some,
    ensures
        digits_value(s)->0 >= 0,
    decreases s.len(),
{
    if s.len() > 0 {
        lemma_digits_not_negative(s.drop_last());
    }
}

/// A run with a character that is no digit has no value.
proof fn lemma_digits_need_digits(s: Seq<char>, k: int)
    requires
        0 <= k < s.len(),
        digit_value(s[k]) is None,
    ensures
        digits_value(s) is None,
    decreases s.len(),
{
    if k < s.len() - 1 {
        lemma_digits_need_digits(s.drop_last(), k);
    }
}

/// Reads a number from decimal text, as [`integer_of_text`] defines it.
pub fn parse_integer(text: &str) -> (r: Option<i64>)
    ensures
        r == integer_of_text(text@),
{
    broadcast use vstd::string::is_ascii_spec_bytes;

    if !text.is_ascii() {
        proof {
            let k = choose|k: int|
                0 <= k < text@.len() && !('\0' <= #[trigger] text@[k] <= '\u{7f}');
            let body = if is_signed(text@) {
                text@.drop_first()
            } else {
                text@
            };
            if body.len() > 0 {
                if is_signed(text@) {
                    assert(k > 0);
                    assert(body[k - 1] == text@[k]);
                    lemma_digits_need_digits(body, k - 1);
                } else {
                    lemma_digits_need_digits(body, k);
                }
            }
        }
        return None;
    }
    let length = text.unicode_len();
    if length == 0 {
        return None;
    }
    let first = text.get_ascii(0);
    let negative = first == 45u8;
    let signed = negative || first == 43u8;
    let start: usize = if signed {
        1
    } else {
        0
    };
    let ghost body = if is_signed(text@) {
        text@.drop_first()
    } else {
        text@
    };
    assert(text@[0] as u8 == first);
    assert(signed == is_signed(text@));
    assert(body =~= text@.subrange(start as int, length as int));
    if start == length {
        return None;
    }
    // A negative number is gathered below zero, where the range reaches one
    // further than above it.
    let mut gathered: i64 = 0;
    let mut i: usize = start;
    assert(body.take(0) =~= Seq::<char>::empty());
    while i < length
        invariant
            start <= i <= length,
            length == text@.len(),
            text.is_ascii(),
            length > 0,
            negative == (text@[0] == '-'),
            body.len() > 0,
            body == (if is_signed(text@) {
                text@.drop_first()
            } else {
                text@
            }),
            body == text@.subrange(start as int, length as int),
            digits_value(body.take(i - start)) is Some,
            gathered == if negative {
                -(digits_value(body.take(i - start))->0)
            } else {
                digits_value(body.take(i - start))->0
            },
        decreases length - i,
    {
        let byte = text.get_ascii(i);
        let ghost c = text@[i as int];
        let ghost upto = body.take(i - start + 1);
        proof {
            assert(upto.drop_last() =~= body.take(i - start));
            assert(upto.last() == c);
            assert(body[i - start] == c);
            assert(c as u8 == byte);
            assert('\0' <= c <= '\u{7f}');
        }
        if byte < 48u8 || byte > 57u8 {
            proof {
                assert(digit_value(c) is None);
                lemma_digits_need_digits(body, i - start);
            }
            return None;
        }
        let digit: i64 = (byte - 48u8) as i64;
        assert(digit_value(c) == Some(digit as int));
        assert(digits_value(upto) == Some(
            10 * digits_value(body.take(i - start))->0 + digit as int,
        ));
        let shifted = match gathered.checked_mul(10) {
            Some(shifted) => shifted,
            None => {
                proof {
                    lemma_digits_not_negative(body.take(i - start));
                    if digits_value(body) is Some {
                        lemma_digits_grow(body, i - start + 1);
                    }
                }
                return None;
            },
        };
        let next = if negative {
            shifted.checked_sub(digit)
        } else {
            shifted.checked_add(digit)
        };
        match next {
            Some(next) => {
                gathered = next;
            },
            None => {
                proof {
                    lemma_digits_not_negative(body.take(i - start));
                    if digits_value(body) is Some {
                        lemma_digits_grow(body, i - start + 1);
                    }
                }
                return None;
            },
        }
        i = i + 1;
    }
    assert(body.take(i - start) =~= body);
    proof {
        lemma_digits_not_negative(body);
    }
    Some(gathered)
}

/// The digits written for a number are digits, at least one of them, and are
/// worth the number.
pub proof fn lemma_digits_read_back(n: nat)
    ensures
        digits_text(n).len() > 0,
        digit_value(digits_text(n)[0]) is Some,
        digits_value(digits_text(n)) == Some(n as int),
    decreases n,
{
    if n < 10 {
        let c = ('0' as u8 + n as u8) as char;
        assert(digits_text(n) =~= seq![c]);
        assert(seq![c].drop_last() =~= Seq::<char>::empty());
        assert(digits_value(Seq::<char>::empty()) == Some(0int));
        assert(seq![c].last() == c);
        assert(digit_value(c) == Some(n as int));
    } else {
        lemma_digits_read_back(n / 10);
        let c = ('0' as u8 + (n % 10) as u8) as char;
        let text = digits_text(n / 10).push(c);
        assert(text.drop_last() =~= digits_text(n / 10));
        assert(text[0] == digits_text(n / 10)[0]);
        assert(text.last() == c);
        assert(digit_value(c) == Some((n % 10) as int));
        assert(n == 10 * (n / 10) + n % 10);
    }
}

/// What is written for a number is read back as that number.
pub proof fn law_written_number_reads_back(n: i64)
    ensures
        integer_of_text(integer_text(n as int)) == Some(n),
{
    if n < 0 {
        let digits = digits_text((-n) as nat);
        let text = seq!['-'] + digits;
        lemma_digits_read_back((-n) as nat);
        assert(text.drop_first() =~= digits);
        assert(text[0] == '-');
    } else {
        let digits = digits_text(n as nat);
        lemma_digits_read_back(n as nat);
        assert(digits[0] != '-' && digits[0] != '+');
    }
}

} // verus!
