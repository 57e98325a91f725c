//! The text form of the best score, as it lies in the persisted slot.
//!
//! The slot holds the number in decimal, with no delimiter. Reading and
//! writing the slot is the driver's business; this module turns its contents
//! into a number and back.

use vstd::prelude::*;

verus! {

/// The byte of the plus sign.
pub const PLUS: u8 = 43;

/// The byte of the digit zero.
pub const ZERO: u8 = 48;

/// `b` is a decimal digit.
pub open spec fn spec_is_digit(b: u8) -> bool {
    48 <= b <= 57
}

/// Every byte of `text` is a decimal digit.
pub open spec fn spec_all_digits(text: Seq<u8>) -> bool {
    forall|i: int| 0 <= i < text.len() ==> spec_is_digit(#[trigger] text[i])
}

/// The number that a run of decimal digits stands for, most significant
/// digit first.
pub open spec fn spec_decimal_value(digits: Seq<u8>) -> nat
    decreases digits.len(),
{
    if digits.len() == 0 {
        0
    } else {
        (10 * spec_decimal_value(digits.drop_last()) + (digits.last() - 48)) as nat
    }
}

/// The shortest run of decimal digits that stands for `n`.
pub open spec fn spec_decimal_digits(n: nat) -> Seq<u8>
    decreases n,
{
    if n < 10 {
        seq![(48 + n) as u8]
    } else {
        spec_decimal_digits(n / 10).push((48 + n % 10) as u8)
    }
}

/// `text` without a leading plus sign.
pub open spec fn spec_unsigned_part(text: Seq<u8>) -> Seq<u8> {
    if text.len() > 0 && text[0] == 43 {
        text.skip(1)
    } else {
        text
    }
}

/// The number that `text` holds: an optional plus sign, then one or more
/// decimal digits whose value fits in 32 bits. Anything else holds none.
pub open spec fn spec_parse(text: Seq<u8>) -> Option<u32> {
    let digits = spec_unsigned_part(text);
    if digits.len() > 0 && spec_all_digits(digits) && spec_decimal_value(digits) <= u32::MAX {
        Some(spec_decimal_value(digits) as u32)
    } else {
        None
    }
}

/// The best score that a slot yields: zero where the slot is absent or does
/// not hold a number.
pub open spec fn spec_restore(slot: Option<Seq<u8>>) -> u32 {
    match slot {
        Some(text) => match spec_parse(text) {
            Some(value) => value,
            None => 0,
        },
        None => 0,
    }
}

/// A longer run of digits stands for at least as much as any of its
/// prefixes.
pub proof fn lemma_value_grows_with_length(digits: Seq<u8>, n: int)
    requires
        spec_all_digits(digits),
        0 <= n <= digits.len(),
    ensures
        spec_decimal_value(digits.take(n)) <= spec_decimal_value(digits),
    decreases digits.len() - n,
{
    if n == digits.len() {
        assert(digits.take(n) =~= digits);
    } else {
        lemma_value_grows_with_length(digits, n + 1);
        assert(digits.take(n + 1).drop_last() =~= digits.take(n));
    }
}

/// The digits written for a number are digits, never start with a plus sign
/// and stand for that number.
pub proof fn lemma_digits_round_trip(n: nat)
    ensures
        spec_decimal_digits(n).len() > 0,
        spec_all_digits(spec_decimal_digits(n)),
        spec_decimal_digits(n)[0] != 43,
        spec_decimal_value(spec_decimal_digits(n)) == n,
    decreases n,
{
    let text = spec_decimal_digits(n);
    if n < 10 {
        assert(spec_decimal_value(text.drop_last()) == 0);
    } else {
        lemma_digits_round_trip(n / 10);
        assert(text.drop_last() =~= spec_decimal_digits(n / 10));
    }
}

/// What is written for a best score reads back as that score; an absent slot
/// reads as zero.
pub proof fn lemma_store_then_restore(high_score: u32)
    ensures
        spec_parse(spec_decimal_digits(high_score as nat)) == Some(high_score),
        spec_restore(Some(spec_decimal_digits(high_score as nat))) == high_score,
        spec_restore(None) == 0,
{
    lemma_digits_round_trip(high_score as nat);
}

/// Reads the number that `text` holds, if it holds one.
pub fn parse(text: &[u8]) -> (value: Option<u32>)
    ensures
        value == spec_parse(text@),
{
    let start: usize = if text.len() > 0 && text[0] == PLUS {
        1
    } else {
        0
    };
    let ghost digits = spec_unsigned_part(text@);
    if start == text.len() {
        return None;
    }
    let mut acc: u64 = 0;
    let mut i: usize = start;
    while i < text.len()
        invariant
            start <= i <= text.len(),
            digits == spec_unsigned_part(text@),
            digits == text@.skip(start as int),
            spec_all_digits(digits.take(i - start)),
            acc == spec_decimal_value(digits.take(i - start)),
            acc <= u32::MAX,
        decreases text.len() - i,
    {
        let b: u8 = text[i];
        let ghost k = i - start;
        assert(digits.take(k + 1).drop_last() =~= digits.take(k));
        if b < ZERO || b > 57 {
            assert(!spec_is_digit(digits[k]));
            return None;
        }
        assert(spec_all_digits(digits.take(k + 1))) by {
            assert forall|j: int| 0 <= j < k + 1 implies spec_is_digit(
                #[trigger] digits.take(k + 1)[j],
            ) by {
                if j < k {
                    assert(digits.take(k + 1)[j] == digits.take(k)[j]);
                }
            }
        }
        acc = acc * 10 + (b - ZERO) as u64;
        if acc > u32::MAX as u64 {
            proof {
                if spec_all_digits(digits) {
                    lemma_value_grows_with_length(digits, k + 1);
                }
            }
            return None;
        }
        i += 1;
    }
    assert(digits.take(i - start) =~= digits);
    Some(acc as u32)
}

/// The best score that the slot yields; `None` stands for an absent slot.
/// Never fails: what cannot be read counts as zero.
pub fn restore(slot: Option<&[u8]>) -> (high_score: u32)
    ensures
        high_score == spec_restore(
            match slot {
                Some(text) => Some(text@),
                None => None,
            },
        ),
{
    match slot {
        Some(text) => match parse(text) {
            Some(value) => value,
            None => 0,
        },
        None => 0,
    }
}

/// The text to write to the slot for `high_score`.
pub fn render(high_score: u32) -> (text: Vec<u8>)
    ensures
        text@ == spec_decimal_digits(high_score as nat),
        spec_parse(text@) == Some(high_score),
    decreases high_score,
{
    proof {
        lemma_store_then_restore(high_score);
    }
    if high_score < 10 {
        let mut text: Vec<u8> = Vec::new();
        text.push(ZERO + high_score as u8);
        text
    } else {
        let mut text = render(high_score / 10);
        text.push(ZERO + (high_score % 10) as u8);
        text
    }
}

} // verus!
