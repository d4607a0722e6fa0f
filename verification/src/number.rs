use crate::cursor::{char_at, text};
use crate::grammar::{digit_value, digits_value, NumberBase};
use vstd::prelude::*;

verus! {

/// The value of the digit that the byte `b` writes, 0 for a byte that writes none.
pub fn digit_of(b: u8) -> (d: u8)
    ensures
        d == digit_value(b as char),
        d <= 15,
{
    if 48 <= b && b <= 57 {
        b - 48
    } else if 97 <= b && b <= 102 {
        b - 87
    } else if 65 <= b && b <= 70 {
        b - 55
    } else {
        0
    }
}

/// With one more digit a number does not get smaller.
proof fn lemma_digits_value_grows(digits: Seq<char>, radix: int)
    requires
        radix >= 1,
        digits.len() > 0,
    ensures
        0 <= digits_value(digits.drop_last(), radix) <= digits_value(digits, radix),
    decreases digits.len(),
{
    let head = digits.drop_last();
    if head.len() > 0 {
        lemma_digits_value_grows(head, radix);
    }
    assert(digits_value(head, radix) * radix >= digits_value(head, radix)) by (nonlinear_arith)
        requires
            digits_value(head, radix) >= 0,
            radix >= 1,
    ;
}

/// The integer that the bytes from index `from` up to index `to` write in the given base, if it
/// is no greater than `i32::MAX`.
pub fn parse_digits(source: &Vec<u8>, from: usize, to: usize, base: NumberBase) -> (value: Option<
    i32,
>)
    requires
        from <= to <= source@.len(),
    ensures
        match value {
            Some(v) => v == digits_value(text(source@, from as int, to as int), base.radix() as int),
            None => digits_value(text(source@, from as int, to as int), base.radix() as int)
                > i32::MAX,
        },
{
    let radix: i64 = base.radix() as i64;
    let mut total: i64 = 0;
    let mut fits: bool = true;
    let mut k: usize = from;
    while k < to
        invariant
            from <= k <= to <= source@.len(),
            radix == base.radix(),
            8 <= radix <= 16,
            0 <= total <= i32::MAX,
            fits ==> total == digits_value(text(source@, from as int, k as int), radix as int),
            !fits ==> digits_value(text(source@, from as int, k as int), radix as int) > i32::MAX,
        decreases to - k,
    {
        let d: i64 = digit_of(source[k]) as i64;
        proof {
            let longer = text(source@, from as int, k + 1);
            assert(longer.drop_last() =~= text(source@, from as int, k as int));
            assert(longer.last() == char_at(source@, k as int));
            lemma_digits_value_grows(longer, radix as int);
        }
        if fits {
            let next: i64 = total * radix + d;
            if next > 2147483647 {
                fits = false;
            } else {
                total = next;
            }
        }
        k = k + 1;
    }
    if fits {
        Some(total as i32)
    } else {
        None
    }
}

} // verus!
