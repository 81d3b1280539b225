use vstd::prelude::*;

verus! {

pub open spec fn is_digit(b: u8) -> bool {
    48 <= b <= 57
}

pub open spec fn all_digits(digits: Seq<u8>) -> bool {
    forall|i: int| 0 <= i < digits.len() ==> is_digit(#[trigger] digits[i])
}

/// The number that a sequence of decimal digits writes.
pub open spec fn digits_value(digits: Seq<u8>) -> int
    decreases digits.len(),
{
    if digits.len() == 0 {
        0
    } else {
        digits_value(digits.drop_last()) * 10 + (digits.last() - 48)
    }
}

/// The integer that `text` writes in decimal: an optional `+` or `-`, then
/// one digit or more and nothing else, the whole within the range of a
/// 64-bit signed integer.
pub open spec fn integer_of(text: Seq<u8>) -> Option<i64> {
    let negative = text.len() > 0 && text[0] == 45;
    let signed = text.len() > 0 && (text[0] == 45 || text[0] == 43);
    let digits = if signed {
        text.subrange(1, text.len() as int)
    } else {
        text
    };
    let value = if negative {
        -digits_value(digits)
    } else {
        digits_value(digits)
    };
    if digits.len() > 0 && all_digits(digits) && i64::MIN <= value <= i64::MAX {
        Some(value as i64)
    } else {
        None
    }
}

proof fn lemma_digits_grow(digits: Seq<u8>, k: int)
    requires
        all_digits(digits),
        0 <= k <= digits.len(),
    ensures
        0 <= digits_value(digits.take(k)) <= digits_value(digits),
    decreases digits.len() - k,
{
    lemma_digits_nonnegative(digits.take(k));
    if k < digits.len() {
        lemma_digits_grow(digits, k + 1);
        assert(digits.take(k + 1).drop_last() =~= digits.take(k));
        assert(is_digit(digits[k]));
    } else {
        assert(digits.take(k) =~= digits);
    }
}

proof fn lemma_digits_nonnegative(digits: Seq<u8>)
    requires
        all_digits(digits),
    ensures
        0 <= digits_value(digits),
    decreases digits.len(),
{
    if digits.len() > 0 {
        lemma_digits_nonnegative(digits.drop_last());
        assert(is_digit(digits[digits.len() - 1]));
    }
}

/// Reads a decimal integer.
pub fn parse_integer(text: &[u8]) -> (r: Option<i64>)
    ensures
        r == integer_of(text@),
{
    let n = text.len();
    if n == 0 {
        return None;
    }
    let negative = text[0] == 45;
    let first: usize = if text[0] == 45 || text[0] == 43 {
        1
    } else {
        0
    };
    if first == n {
        return None;
    }
    let ghost digits = if first == 1 {
        text@.subrange(1, n as int)
    } else {
        text@
    };
    let mut acc: i64 = 0;
    let mut i: usize = first;
    while i < n
        invariant
            first <= i <= n,
            0 < n == text@.len(),
            negative == (text@[0] == 45),
            (first == 1) == (text@[0] == 45 || text@[0] == 43),
            first <= 1,
            digits == if first == 1 {
                text@.subrange(1, n as int)
            } else {
                text@
            },
            all_digits(digits.take(i - first)),
            negative ==> acc == -digits_value(digits.take(i - first)),
            !negative ==> acc == digits_value(digits.take(i - first)),
        decreases n - i,
    {
        let b = text[i];
        if b < 48 || b > 57 {
            assert(!is_digit(digits[i - first]));
            return None;
        }
        let digit: i128 = (b - 48) as i128;
        let wide: i128 = if negative {
            acc as i128 * 10 - digit
        } else {
            acc as i128 * 10 + digit
        };
        proof {
            let next = digits.take(i - first + 1);
            assert(next.drop_last() =~= digits.take(i - first));
            assert(next.last() == b);
            assert forall|j: int| 0 <= j < next.len() implies is_digit(#[trigger] next[j]) by {
                if j < i - first {
                    assert(is_digit(digits.take(i - first)[j]));
                }
            }
            assert(negative ==> wide == -digits_value(next));
            assert(!negative ==> wide == digits_value(next));
        }
        if wide < i64::MIN as i128 || wide > i64::MAX as i128 {
            proof {
                if all_digits(digits) {
                    lemma_digits_grow(digits, i - first + 1);
                }
            }
            return None;
        }
        acc = wide as i64;
        i += 1;
    }
    proof {
        assert(digits.take(n - first) =~= digits);
    }
    Some(acc)
}

} // verus!
