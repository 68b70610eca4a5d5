use vstd::prelude::*;

verus! {

/// Whether `byte` is a decimal digit.
pub open spec fn is_digit(byte: u8) -> bool {
    0x30 <= byte <= 0x39
}

/// The number that the decimal digits `digits` write.
pub open spec fn value(digits: Seq<u8>) -> nat
    decreases digits.len(),
{
    if digits.len() == 0 {
        0
    } else {
        value(digits.drop_last()) * 10 + (digits.last() - 0x30) as nat
    }
}

/// The digits of `text`: all of it behind a plus sign at the front, if
/// there is one.
pub open spec fn digits_of(text: Seq<u8>) -> Seq<u8> {
    if text.len() > 0 && text[0] == 0x2b {
        text.skip(1)
    } else {
        text
    }
}

/// The number that `text` writes in decimal: one digit or more, behind at
/// most one plus sign, of a value that a `usize` can hold.
pub open spec fn number(text: Seq<u8>) -> Option<usize> {
    let digits = digits_of(text);
    if digits.len() > 0 && (forall|k: int| 0 <= k < digits.len() ==> is_digit(#[trigger] digits[k]))
        && value(digits) <= usize::MAX {
        Some(value(digits) as usize)
    } else {
        None
    }
}

/// More digits write no smaller a number.
pub proof fn lemma_value_grows(digits: Seq<u8>, i: int)
    requires
        0 <= i <= digits.len(),
        forall|k: int| 0 <= k < digits.len() ==> is_digit(#[trigger] digits[k]),
    ensures
        value(digits.take(i)) <= value(digits),
    decreases digits.len() - i,
{
    if i < digits.len() {
        lemma_value_grows(digits, i + 1);
        assert(digits.take(i + 1).drop_last() == digits.take(i));
        assert(digits.take(i + 1).last() == digits[i]);
    } else {
        assert(digits.take(i) == digits);
    }
}

/// Reads `text` as a decimal number.
pub fn parse_number(text: &[u8]) -> (parsed: Option<usize>)
    ensures
        parsed == number(text@),
{
    let first: usize = if text.len() > 0 && text[0] == 0x2b {
        1
    } else {
        0
    };
    let ghost digits = digits_of(text@);
    if first == text.len() {
        return None;
    }
    let mut total: usize = 0;
    let mut i: usize = first;
    while i < text.len()
        invariant
            first <= i <= text@.len(),
            first <= 1,
            digits == digits_of(text@),
            digits == text@.skip(first as int),
            forall|k: int| 0 <= k < i - first ==> is_digit(#[trigger] digits[k]),
            total == value(digits.take(i - first)),
        decreases text@.len() - i,
    {
        let byte: u8 = text[i];
        assert(digits[i - first] == byte);
        if byte < 0x30 || byte > 0x39 {
            return None;
        }
        let digit: usize = (byte - 0x30) as usize;
        proof {
            assert(digits.take(i - first + 1).drop_last() == digits.take(i - first));
            assert(digits.take(i - first + 1).last() == byte);
        }
        if total > (usize::MAX - digit) / 10 {
            proof {
                let longer = digits.take(i - first + 1);
                assert(value(longer) == total * 10 + digit);
                assert(value(longer) > usize::MAX);
                if forall|k: int| 0 <= k < digits.len() ==> is_digit(#[trigger] digits[k]) {
                    lemma_value_grows(digits, i - first + 1);
                }
            }
            return None;
        }
        total = total * 10 + digit;
        i += 1;
    }
    proof {
        assert(digits.take(i - first) == digits);
    }
    Some(total)
}

} // verus!
