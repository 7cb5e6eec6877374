//! Decimal notation of unsigned numbers.

use vstd::prelude::*;
use vstd::string::*;

verus! {

/// The decimal digits of `value` as ASCII bytes, most significant first,
/// without leading zeros; zero is a single `0`.
pub open spec fn decimal_bytes(value: nat) -> Seq<u8>
    decreases value,
{
    if value < 10 {
        seq![(48 + value) as u8]
    } else {
        decimal_bytes(value / 10).push((48 + value % 10) as u8)
    }
}

/// The decimal digits of `value` as characters.
pub open spec fn decimal(value: nat) -> Seq<char> {
    decimal_bytes(value).map_values(|b: u8| b as char)
}

/// A number of 64 bits has between 1 and 20 decimal digits.
pub proof fn lemma_decimal_len(value: nat)
    ensures
        decimal_bytes(value).len() >= 1,
        value < 10 ==> decimal_bytes(value).len() == 1,
        value <= u64::MAX ==> decimal_bytes(value).len() <= 20,
        value <= u32::MAX ==> decimal_bytes(value).len() <= 10,
        value < 100_000 ==> decimal_bytes(value).len() <= 5,
{
    lemma_decimal_below(value, 1);
    if value <= u64::MAX {
        lemma_decimal_below(value, 20);
    }
    if value <= u32::MAX {
        lemma_decimal_below(value, 10);
    }
    if value < 100_000 {
        lemma_decimal_below(value, 5);
    }
}

/// Ten to the power of `digits`.
pub open spec fn power_of_ten(digits: nat) -> nat
    decreases digits,
{
    if digits == 0 {
        1
    } else {
        10 * power_of_ten((digits - 1) as nat)
    }
}

/// A number below the `digits`-th power of ten has at most `digits` digits.
proof fn lemma_decimal_below(value: nat, digits: nat)
    requires
        digits >= 1,
    ensures
        decimal_bytes(value).len() >= 1,
        value < power_of_ten(digits) ==> decimal_bytes(value).len() <= digits,
        power_of_ten(1) == 10,
        power_of_ten(5) == 100_000,
        power_of_ten(10) == 10_000_000_000,
        power_of_ten(20) == 100_000_000_000_000_000_000,
    decreases value,
{
    reveal_with_fuel(power_of_ten, 21);
    if value >= 10 {
        if digits >= 2 {
            lemma_decimal_below(value / 10, (digits - 1) as nat);
            assert(value < power_of_ten(digits) ==> value / 10 < power_of_ten(
                (digits - 1) as nat,
            )) by {
                assert(power_of_ten(digits) == 10 * power_of_ten((digits - 1) as nat));
            }
        } else {
            lemma_decimal_below(value / 10, 1);
            assert(power_of_ten(1) == 10);
        }
    }
}

/// Writes `value` in decimal notation to the start of `buffer` and returns
/// the number of bytes written. The rest of the buffer stays as it is.
pub fn u64_to_str(value: u64, buffer: &mut [u8]) -> (written: usize)
    requires
        old(buffer)@.len() >= decimal_bytes(value as nat).len(),
    ensures
        written == decimal_bytes(value as nat).len(),
        final(buffer)@.len() == old(buffer)@.len(),
        final(buffer)@.take(written as int) == decimal_bytes(value as nat),
        final(buffer)@.skip(written as int) == old(buffer)@.skip(written as int),
{
    let ghost digits = decimal_bytes(value as nat);
    let ghost initial = buffer@;
    proof {
        lemma_decimal_len(value as nat);
    }
    // count the digits
    let mut count: usize = 1;
    let mut rest: u64 = value;
    while rest >= 10
        invariant
            1 <= count <= 20,
            digits.len() <= 20,
            digits.len() == decimal_bytes(rest as nat).len() + count - 1,
        decreases rest,
    {
        proof {
            lemma_decimal_len((rest / 10) as nat);
        }
        rest = rest / 10;
        count = count + 1;
    }
    // write them from the last to the first
    let mut left: u64 = value;
    let mut at: usize = count;
    while left >= 10
        invariant
            1 <= at <= count,
            count == digits.len(),
            count <= buffer@.len(),
            buffer@.len() == initial.len(),
            at == decimal_bytes(left as nat).len(),
            digits == decimal_bytes(left as nat) + buffer@.subrange(at as int, count as int),
            buffer@.skip(count as int) == initial.skip(count as int),
        decreases left,
    {
        let ghost before = buffer@;
        let ghost shorter = decimal_bytes((left / 10) as nat);
        let digit: u8 = (left % 10) as u8 + 48;
        proof {
            lemma_decimal_len((left / 10) as nat);
            assert(decimal_bytes(left as nat) == shorter.push(digit));
        }
        at = at - 1;
        buffer[at] = digit;
        left = left / 10;
        proof {
            assert(buffer@.subrange(at as int, count as int) =~= seq![digit] + before.subrange(
                at + 1,
                count as int,
            ));
            assert(shorter.push(digit) + before.subrange(at + 1, count as int) =~= shorter + (
            seq![digit] + before.subrange(at + 1, count as int)));
            assert(buffer@.skip(count as int) =~= before.skip(count as int));
        }
    }
    let ghost before = buffer@;
    let digit: u8 = left as u8 + 48;
    buffer[0] = digit;
    proof {
        assert(decimal_bytes(left as nat) =~= seq![digit]);
        assert(buffer@.take(count as int) =~= seq![digit] + before.subrange(1, count as int));
        assert(buffer@.skip(count as int) =~= before.skip(count as int));
    }
    count
}

/// The text of one decimal digit.
fn digit_text(value: u64) -> (text: &'static str)
    requires
        value < 10,
    ensures
        text@ == seq![((48 + value) as u8) as char],
{
    proof {
        reveal_strlit("0");
        reveal_strlit("1");
        reveal_strlit("2");
        reveal_strlit("3");
        reveal_strlit("4");
        reveal_strlit("5");
        reveal_strlit("6");
        reveal_strlit("7");
        reveal_strlit("8");
        reveal_strlit("9");
    }
    let text = if value == 0 {
        "0"
    } else if value == 1 {
        "1"
    } else if value == 2 {
        "2"
    } else if value == 3 {
        "3"
    } else if value == 4 {
        "4"
    } else if value == 5 {
        "5"
    } else if value == 6 {
        "6"
    } else if value == 7 {
        "7"
    } else if value == 8 {
        "8"
    } else {
        "9"
    };
    proof {
        assert(text@ =~= seq![((48 + value) as u8) as char]);
    }
    text
}

/// Appends `value` in decimal notation to `text`.
pub fn push_decimal(text: &mut String, value: u64)
    ensures
        final(text)@ == old(text)@ + decimal(value as nat),
    decreases value,
{
    if value >= 10 {
        push_decimal(text, value / 10);
    }
    let ghost before = text@;
    text.append(digit_text(value % 10));
    proof {
        let as_char = |b: u8| b as char;
        if value >= 10 {
            let shorter = decimal_bytes((value / 10) as nat);
            let digit = (48 + value % 10) as u8;
            assert(decimal_bytes(value as nat) == shorter.push(digit));
            assert(shorter.push(digit).map_values(as_char) =~= shorter.map_values(as_char).push(
                digit as char,
            ));
            assert(text@ =~= old(text)@ + decimal(value as nat));
        } else {
            let digit = (48 + value) as u8;
            assert(decimal_bytes(value as nat) =~= seq![digit]);
            assert(seq![digit].map_values(as_char) =~= seq![digit as char]);
            assert(text@ =~= old(text)@ + decimal(value as nat));
        }
    }
}

} // verus!
