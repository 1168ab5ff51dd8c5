//! What the operations on texts come to, character by character.

use vstd::prelude::*;

use crate::text::{
    ascii_lower, begins_with, closes_with, decimal, is_blank, mentions, occurs_at, signed_decimal,
    substituted,
};

verus! {

/// The characters that count as white space, by their numbers.
pub proof fn law_white_space(c: char)
    ensures
        is_blank(c) <==> {
            let n = c as u32;
            ||| 9 <= n <= 13
            ||| n == 32 || n == 0x85 || n == 0xa0 || n == 0x1680
            ||| 0x2000 <= n <= 0x200a
            ||| n == 0x2028 || n == 0x2029 || n == 0x202f || n == 0x205f || n == 0x3000
        },
{
}

/// A text mentions what it is put together with, and only that: what it mentions stands somewhere
/// in it.
pub proof fn law_mentioned_part_stands_in_the_text(
    before: Seq<char>,
    part: Seq<char>,
    after: Seq<char>,
    text: Seq<char>,
)
    ensures
        mentions(before + part + after, part),
        begins_with(part + after, part),
        closes_with(before + part, part),
        mentions(text, part) ==> exists|i: int|
            0 <= i <= text.len() - part.len() && #[trigger] text.subrange(i, i + part.len())
                == part,
        begins_with(text, part) ==> part.len() <= text.len() && text.take(part.len() as int)
            == part,
        closes_with(text, part) ==> part.len() <= text.len() && text.skip(text.len() - part.len())
            == part,
{
    let whole = before + part + after;
    assert(whole.subrange(before.len() as int, (before.len() + part.len()) as int) =~= part);
    assert(occurs_at(whole, part, before.len() as int));
    assert((part + after).subrange(0, part.len() as int) =~= part);
    assert((before + part).subrange(before.len() as int, (before + part).len() as int) =~= part);
    if mentions(text, part) {
        let i = choose|i: int| occurs_at(text, part, i);
        assert(text.subrange(i, i + part.len()) == part);
    }
    if begins_with(text, part) {
        assert(text.take(part.len() as int) =~= text.subrange(0, part.len() as int));
    }
    if closes_with(text, part) {
        assert(text.skip(text.len() - part.len()) =~= text.subrange(
            text.len() - part.len(),
            text.len() as int,
        ));
    }
}

/// The number that digits stand for.
pub open spec fn number_of(digits: Seq<char>) -> int
    decreases digits.len(),
{
    if digits.len() == 0 {
        0
    } else {
        number_of(digits.drop_last()) * 10 + (digits.last() as u32 - '0' as u32)
    }
}

/// A number is written in digits that stand for it, without a leading zero.
pub proof fn law_digits_stand_for_the_number(n: nat)
    ensures
        number_of(decimal(n)) == n,
        decimal(n).len() > 0,
        forall|i: int| 0 <= i < decimal(n).len() ==> '0' <= #[trigger] decimal(n)[i] <= '9',
        n > 0 ==> decimal(n)[0] != '0',
    decreases n,
{
    let digits = decimal(n);
    if n < 10 {
        assert(digits.drop_last() =~= seq![]);
        assert(number_of(seq![]) == 0);
    } else {
        let high = decimal(n / 10);
        law_digits_stand_for_the_number(n / 10);
        assert(digits.drop_last() =~= high);
        assert(digits[0] == high[0]);
        assert forall|i: int| 0 <= i < digits.len() implies '0' <= #[trigger] digits[i] <= '9' by {
            if i < high.len() {
                assert(digits[i] == high[i]);
            }
        }
    }
}

/// A negative number is written as a sign and its digits.
pub proof fn law_sign_comes_before_the_digits(n: nat)
    ensures
        signed_decimal(n as int) == decimal(n),
        n > 0 ==> signed_decimal(-(n as int)) == seq!['-'] + decimal(n),
{
}

/// Two numbers are written alike only if they are the same.
pub proof fn law_numbers_are_told_apart(m: nat, n: nat)
    requires
        m != n,
    ensures
        decimal(m) != decimal(n),
{
    law_digits_stand_for_the_number(m);
    law_digits_stand_for_the_number(n);
}

/// Writing a character in another way goes through the whole text: what stands before and after is
/// treated alike, and other characters stay.
pub proof fn law_every_occurrence_is_written_anew(
    a: Seq<char>,
    c: char,
    b: Seq<char>,
    new: Seq<char>,
)
    ensures
        substituted(a + b, c, new) == substituted(a, c, new) + substituted(b, c, new),
        substituted(seq![c], c, new) == new,
        !a.contains(c) ==> substituted(a, c, new) == a,
    decreases a.len() + b.len(),
{
    if b.len() == 0 {
        assert(a + b =~= a);
        assert(substituted(a, c, new) + substituted(b, c, new) =~= substituted(a, c, new));
        if a.len() > 0 && !a.contains(c) {
            let rest = a.drop_last();
            assert(a.contains(a.last()));
            assert forall|d: char| rest.contains(d) implies a.contains(d) by {
                let i = choose|i: int| 0 <= i < rest.len() && rest[i] == d;
                assert(a[i] == d);
            }
            law_every_occurrence_is_written_anew(rest, c, b, new);
            assert(a =~= rest + seq![a.last()]);
        }
    } else {
        assert((a + b).drop_last() =~= a + b.drop_last());
        law_every_occurrence_is_written_anew(a, c, b.drop_last(), new);
        let last = if b.last() == c {
            new
        } else {
            seq![b.last()]
        };
        assert(substituted(a, c, new) + (substituted(b.drop_last(), c, new) + last)
            =~= substituted(a, c, new) + substituted(b.drop_last(), c, new) + last);
    }
    let rest = seq![c].drop_last();
    assert(rest.len() == 0);
    assert(substituted(rest, c, new) == rest);
    assert(seq![c].last() == c);
    assert(substituted(seq![c], c, new) == rest + new);
    assert(rest + new =~= new);
}

/// ASCII capitals have their small letter, and nothing else changes.
pub proof fn law_small_letters(c: char)
    ensures
        'A' <= c <= 'Z' ==> ascii_lower(c) as u32 == c as u32 + 32,
        !('A' <= c <= 'Z') ==> ascii_lower(c) == c,
{
}

} // verus!
