//! Reading the arguments that are given as text.

use vstd::prelude::*;

verus! {

/// The characters of a text.
pub fn chars_of(text: &str) -> (out: Vec<char>)
    ensures
        out@ == text@,
{
    let mut out: Vec<char> = Vec::new();
    for c in it: text.chars()
        invariant
            it.seq() == text@,
            out@ == it.seq().take(it.index() as int),
    {
        out.push(c);
        proof {
            assert(it.seq().take(it.index() + 1) =~= it.seq().take(it.index() as int).push(c));
        }
    }
    proof {
        assert(text@.take(text@.len() as int) =~= text@);
    }
    out
}

/// Whether `c` is a decimal digit.
pub open spec fn is_digit(c: char) -> bool {
    '0' <= c <= '9'
}

/// The value of a decimal digit.
pub open spec fn digit_value(c: char) -> nat {
    if is_digit(c) {
        (c as u32 - '0' as u32) as nat
    } else {
        0
    }
}

/// Whether `text` holds nothing but decimal digits.
pub open spec fn all_digits(text: Seq<char>) -> bool {
    forall|i: int| 0 <= i < text.len() ==> is_digit(#[trigger] text[i])
}

/// The number that the digits of `text` write in base ten.
pub open spec fn decimal(text: Seq<char>) -> nat
    decreases text.len(),
{
    if text.len() == 0 {
        0
    } else {
        decimal(text.drop_last()) * 10 + digit_value(text.last())
    }
}

/// The number that `text` writes, if `text` is one or more decimal digits
/// and the number is at most `max`.
pub open spec fn natural(text: Seq<char>, max: nat) -> Option<nat> {
    if text.len() >= 1 && all_digits(text) && decimal(text) <= max {
        Some(decimal(text))
    } else {
        None
    }
}

/// The number that `text` writes, if `text` is one or more decimal digits,
/// with or without a minus sign before them, and the number is one that 64
/// bits hold with a sign.
pub open spec fn integer(text: Seq<char>) -> Option<int> {
    if text.len() >= 1 && text[0] == '-' {
        match natural(text.skip(1), 0x8000_0000_0000_0000) {
            Some(magnitude) => Some(-(magnitude as int)),
            None => None,
        }
    } else {
        match natural(text, 0x7fff_ffff_ffff_ffff) {
            Some(magnitude) => Some(magnitude as int),
            None => None,
        }
    }
}

/// The fields of `text`, which colons separate.  A text without a colon is
/// one field; between two colons that follow each other lies an empty one.
pub open spec fn fields(text: Seq<char>) -> Seq<Seq<char>>
    decreases text.len(),
{
    if text.len() == 0 {
        seq![Seq::<char>::empty()]
    } else {
        let before = fields(text.drop_last());
        if text.last() == ':' {
            before.push(Seq::<char>::empty())
        } else {
            before.drop_last().push(before.last().push(text.last()))
        }
    }
}

/// A longer text writes a number that is no smaller.
pub proof fn lemma_decimal_grows(text: Seq<char>, i: int)
    requires
        0 <= i <= text.len(),
    ensures
        decimal(text.take(i)) <= decimal(text),
    decreases text.len() - i,
{
    if i == text.len() {
        assert(text.take(i) =~= text);
    } else {
        lemma_decimal_grows(text, i + 1);
        assert(text.take(i + 1).drop_last() =~= text.take(i));
    }
}

/// Splits a text at its colons.
pub fn split(text: &Vec<char>) -> (out: Vec<Vec<char>>)
    ensures
        out@.len() == fields(text@).len(),
        forall|k: int| 0 <= k < out@.len() ==> (#[trigger] out@[k])@ == fields(text@)[k],
{
    let mut done: Vec<Vec<char>> = Vec::new();
    let mut current: Vec<char> = Vec::new();
    let mut i: usize = 0;
    while i < text.len()
        invariant
            i <= text@.len(),
            fields(text@.take(i as int)).len() == done@.len() + 1,
            forall|k: int|
                0 <= k < done@.len() ==> (#[trigger] done@[k])@ == fields(text@.take(i as int))[k],
            current@ == fields(text@.take(i as int)).last(),
        decreases text@.len() - i,
    {
        proof {
            assert(text@.take(i + 1).drop_last() =~= text@.take(i as int));
        }
        let c = text[i];
        if c == ':' {
            done.push(current);
            current = Vec::new();
        } else {
            current.push(c);
        }
        i = i + 1;
    }
    proof {
        assert(text@.take(i as int) =~= text@);
    }
    done.push(current);
    done
}

/// Reads a number of one or more decimal digits that is at most `max`.
pub fn parse_natural(text: &Vec<char>, max: u64) -> (out: Option<u64>)
    ensures
        match natural(text@, max as nat) {
            Some(value) => out == Some(value as u64),
            None => out is None,
        },
{
    if text.len() == 0 {
        return None;
    }
    let mut value: u64 = 0;
    let mut i: usize = 0;
    while i < text.len()
        invariant
            i <= text@.len(),
            all_digits(text@.take(i as int)),
            value == decimal(text@.take(i as int)),
            value <= max,
        decreases text@.len() - i,
    {
        proof {
            assert(text@.take(i + 1).drop_last() =~= text@.take(i as int));
            lemma_decimal_grows(text@, i + 1);
        }
        let c = text[i];
        if c < '0' || c > '9' {
            return None;
        }
        let digit: u32 = c as u32 - '0' as u32;
        let next: u128 = (value as u128) * 10 + (digit as u128);
        if next > max as u128 {
            return None;
        }
        value = next as u64;
        i = i + 1;
    }
    proof {
        assert(text@.take(i as int) =~= text@);
    }
    Some(value)
}

/// Reads a number of one or more decimal digits, with or without a minus
/// sign before them, that 64 bits hold with a sign.
pub fn parse_integer(text: &Vec<char>) -> (out: Option<i64>)
    ensures
        match integer(text@) {
            Some(value) => out == Some(value as i64),
            None => out is None,
        },
{
    if text.len() >= 1 && text[0] == '-' {
        let mut digits: Vec<char> = Vec::new();
        let mut i: usize = 1;
        while i < text.len()
            invariant
                1 <= i <= text@.len(),
                digits@ == text@.skip(1).take(i - 1),
            decreases text@.len() - i,
        {
            digits.push(text[i]);
            proof {
                assert(text@.skip(1).take(i as int) =~= text@.skip(1).take(i - 1).push(
                    text@[i as int],
                ));
            }
            i = i + 1;
        }
        proof {
            assert(text@.skip(1).take(i - 1) =~= text@.skip(1));
        }
        match parse_natural(&digits, 0x8000_0000_0000_0000) {
            Some(magnitude) => if magnitude == 0x8000_0000_0000_0000 {
                Some(i64::MIN)
            } else {
                Some(-(magnitude as i64))
            },
            None => None,
        }
    } else {
        match parse_natural(text, 0x7fff_ffff_ffff_ffff) {
            Some(magnitude) => Some(magnitude as i64),
            None => None,
        }
    }
}

} // verus!
