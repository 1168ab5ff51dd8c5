//! Text helpers: searching, trimming, numbering and lowering.

use vstd::prelude::*;
use vstd::string::*;

verus! {

/// A result by what it holds, its error a text.
pub open spec fn outcome<T: View>(r: Result<T, String>) -> Result<T::V, Seq<char>> {
    match r {
        Ok(value) => Ok(value@),
        Err(error) => Err(error@),
    }
}

/// An optional value by what it holds.
pub open spec fn held<T: View>(r: Option<T>) -> Option<T::V> {
    match r {
        Some(value) => Some(value@),
        None => None,
    }
}

/// A result by what it holds, where that may be missing.
pub open spec fn outcome_held<T: View>(r: Result<Option<T>, String>) -> Result<
    Option<T::V>,
    Seq<char>,
> {
    match r {
        Ok(value) => Ok(held(value)),
        Err(error) => Err(error@),
    }
}

/// The items of a list by what they hold.
pub open spec fn views<T: View>(items: Seq<T>) -> Seq<T::V> {
    items.map_values(|item: T| item@)
}

/// The first item of a list and those after it.
pub open spec fn first_and_rest<V>(items: Seq<V>) -> Option<(V, Seq<V>)> {
    if items.len() == 0 {
        None
    } else {
        Some((items[0], items.drop_first()))
    }
}

/// Parts the first item of a list from those after it.
pub fn split_first<T: View>(items: Vec<T>) -> (r: Option<(T, Vec<T>)>)
    ensures
        match r {
            Some((first, rest)) => first_and_rest(views(items@)) == Some((first@, views(rest@))),
            None => first_and_rest(views(items@)) is None,
        },
{
    let mut rest = items;
    if rest.len() == 0 {
        return None;
    }
    let first = rest.remove(0);
    assert(views(rest@) =~= views(items@).drop_first());
    Some((first, rest))
}

/// An empty list of texts.
pub fn no_texts() -> (r: Vec<String>)
    ensures
        views(r@) == Seq::<Seq<char>>::empty(),
{
    let texts: Vec<String> = Vec::new();
    assert(views(texts@) =~= Seq::<Seq<char>>::empty());
    texts
}

/// A copy of a text or of what is in its place.
pub fn copy_result(result: &Result<String, String>) -> (r: Result<String, String>)
    ensures
        r == *result,
{
    match result {
        Ok(text) => Ok(text.clone()),
        Err(error) => Err(error.clone()),
    }
}

/// Whether `text` has `part` as its stretch from position `at` on.
pub open spec fn occurs_at(text: Seq<char>, part: Seq<char>, at: int) -> bool {
    0 <= at && at + part.len() <= text.len() && text.subrange(at, at + part.len()) == part
}

/// Whether `part` occurs somewhere in `text`.
pub open spec fn mentions(text: Seq<char>, part: Seq<char>) -> bool {
    exists|at: int| #[trigger] occurs_at(text, part, at)
}

/// Whether `text` begins with `part`.
pub open spec fn begins_with(text: Seq<char>, part: Seq<char>) -> bool {
    occurs_at(text, part, 0)
}

/// Whether `text` closes with `part`.
pub open spec fn closes_with(text: Seq<char>, part: Seq<char>) -> bool {
    occurs_at(text, part, text.len() - part.len())
}

/// The characters with the Unicode property White_Space.
pub open spec fn is_blank(c: char) -> bool {
    ||| '\u{9}' <= c <= '\u{d}'
    ||| c == ' '
    ||| c == '\u{85}'
    ||| c == '\u{a0}'
    ||| c == '\u{1680}'
    ||| '\u{2000}' <= c <= '\u{200a}'
    ||| c == '\u{2028}'
    ||| c == '\u{2029}'
    ||| c == '\u{202f}'
    ||| c == '\u{205f}'
    ||| c == '\u{3000}'
}

/// `text` without the white space at its start.
pub open spec fn trimmed_start(text: Seq<char>) -> Seq<char>
    decreases text.len(),
{
    if text.len() > 0 && is_blank(text[0]) {
        trimmed_start(text.drop_first())
    } else {
        text
    }
}

/// `text` without the white space at its end.
pub open spec fn trimmed_end(text: Seq<char>) -> Seq<char>
    decreases text.len(),
{
    if text.len() > 0 && is_blank(text.last()) {
        trimmed_end(text.drop_last())
    } else {
        text
    }
}

/// `text` without the white space around it.
pub open spec fn trimmed(text: Seq<char>) -> Seq<char> {
    trimmed_end(trimmed_start(text))
}

/// The decimal digit for `d`.
pub open spec fn digit(d: nat) -> char {
    (('0' as u8 + d) as u8) as char
}

/// `n` in decimal notation, without leading zeros.
pub open spec fn decimal(n: nat) -> Seq<char>
    decreases n,
{
    if n < 10 {
        seq![digit(n)]
    } else {
        decimal(n / 10).push(digit(n % 10))
    }
}

/// `n` in decimal notation with its sign.
pub open spec fn signed_decimal(n: int) -> Seq<char> {
    if n < 0 {
        seq!['-'] + decimal((-n) as nat)
    } else {
        decimal(n as nat)
    }
}

/// Every `old` character of `text` written as `new`.
pub open spec fn substituted(text: Seq<char>, old_char: char, new: Seq<char>) -> Seq<char>
    decreases text.len(),
{
    if text.len() == 0 {
        text
    } else {
        substituted(text.drop_last(), old_char, new) + (if text.last() == old_char {
            new
        } else {
            seq![text.last()]
        })
    }
}

/// The lowercase form of a text.
pub uninterp spec fn lowercase(text: Seq<char>) -> Seq<char>;

/// A character that has no case, or whose lowercase form is the ASCII one: ASCII itself, the
/// ideographs, and the ideographic and fullwidth punctuation.
pub open spec fn lowers_as_ascii(c: char) -> bool {
    ||| c <= '\u{7f}'
    ||| '\u{3000}' <= c <= '\u{303f}'
    ||| '\u{4e00}' <= c <= '\u{9fff}'
    ||| '\u{ff00}' <= c <= '\u{ff20}'
}

/// `c` with an ASCII capital turned into its small letter.
pub open spec fn ascii_lower(c: char) -> char {
    if 'A' <= c <= 'Z' {
        ((c as u8 + 32) as u8) as char
    } else {
        c
    }
}

/// `str::to_lowercase`: the result is named, since Unicode's case tables take pages to state.
/// On text whose characters are ASCII or belong to scripts without case, the ASCII capitals
/// become small letters and nothing else changes.
#[verifier::external_body]
pub(crate) fn to_lowercase(text: &str) -> (lower: String)
    ensures
        lower@ == lowercase(text@),
        (forall|i: int| 0 <= i < text@.len() ==> lowers_as_ascii(#[trigger] text@[i])) ==> lower@
            == text@.map_values(|c: char| ascii_lower(c)),
{
    text.to_lowercase()
}

/// Whether two texts are the same.
pub fn same(a: &str, b: &str) -> (r: bool)
    ensures
        r == (a@ == b@),
{
    a.to_owned() == b.to_owned()
}

/// The characters of a text, in order.
pub fn chars_of(text: &str) -> (chars: Vec<char>)
    ensures
        chars@ == text@,
{
    let mut chars: Vec<char> = Vec::new();
    for c in it: text.chars()
        invariant
            chars@ == text@.take(it.index()),
            it.seq() == text@,
    {
        assert(text@.take(it.index() + 1) =~= text@.take(it.index()).push(text@[it.index()]));
        chars.push(c);
    }
    assert(text@.take(text@.len() as int) =~= text@);
    chars
}

/// Whether `chars` has `part` as its stretch from position `at` on.
fn matches_at(chars: &Vec<char>, part: &Vec<char>, at: usize) -> (r: bool)
    requires
        at + part@.len() <= chars@.len(),
    ensures
        r == occurs_at(chars@, part@, at as int),
{
    for i in 0..part.len()
        invariant
            at + part@.len() <= chars.len(),
            forall|j: int| 0 <= j < i ==> chars@[at + j] == part@[j],
    {
        if chars[at + i] != part[i] {
            assert(chars@.subrange(at as int, at + part@.len())[i as int] != part@[i as int]);
            return false;
        }
    }
    assert(chars@.subrange(at as int, at + part@.len()) =~= part@);
    true
}

/// Whether `part` occurs somewhere in `text`.
pub fn contains(text: &str, part: &str) -> (r: bool)
    ensures
        r == mentions(text@, part@),
{
    let chars = chars_of(text);
    let wanted = chars_of(part);
    if wanted.len() > chars.len() {
        return false;
    }
    let last: usize = chars.len() - wanted.len();
    let mut at: usize = 0;
    loop
        invariant
            chars@ == text@,
            wanted@ == part@,
            at <= last == chars@.len() - wanted@.len(),
            forall|j: int| 0 <= j < at ==> !occurs_at(text@, part@, j),
        decreases last - at,
    {
        if matches_at(&chars, &wanted, at) {
            return true;
        }
        if at == last {
            return false;
        }
        at = at + 1;
    }
}

/// Whether `text` begins with `part`.
pub fn starts_with(text: &str, part: &str) -> (r: bool)
    ensures
        r == begins_with(text@, part@),
{
    let chars = chars_of(text);
    let wanted = chars_of(part);
    wanted.len() <= chars.len() && matches_at(&chars, &wanted, 0)
}

/// Whether `text` closes with `part`.
pub fn ends_with(text: &str, part: &str) -> (r: bool)
    ensures
        r == closes_with(text@, part@),
{
    let chars = chars_of(text);
    let wanted = chars_of(part);
    wanted.len() <= chars.len() && matches_at(&chars, &wanted, chars.len() - wanted.len())
}

/// Whether a character is white space.
fn blank(c: char) -> (r: bool)
    ensures
        r == is_blank(c),
{
    ('\u{9}' <= c && c <= '\u{d}') || c == ' ' || c == '\u{85}' || c == '\u{a0}' || c == '\u{1680}'
        || ('\u{2000}' <= c && c <= '\u{200a}') || c == '\u{2028}' || c == '\u{2029}' || c
        == '\u{202f}' || c == '\u{205f}' || c == '\u{3000}'
}

/// A text without the white space around it.
pub fn trim(text: &str) -> (r: &str)
    ensures
        r@ == trimmed(text@),
{
    let chars = chars_of(text);
    let mut from: usize = 0;
    assert(text@.skip(0) =~= text@);
    while from < chars.len() && blank(chars[from])
        invariant
            chars@ == text@,
            from <= chars@.len(),
            trimmed_start(text@) == trimmed_start(text@.skip(from as int)),
        decreases chars@.len() - from,
    {
        assert(text@.skip(from as int).drop_first() =~= text@.skip(from + 1));
        from = from + 1;
    }
    let ghost rest = text@.skip(from as int);
    let mut to: usize = chars.len();
    assert(rest.take(rest.len() as int) =~= rest);
    while to > from && blank(chars[to - 1])
        invariant
            chars@ == text@,
            from <= to <= chars@.len(),
            rest == text@.skip(from as int),
            trimmed_end(rest) == trimmed_end(rest.take(to - from)),
        decreases to,
    {
        assert(rest.take(to - from).drop_last() =~= rest.take(to - from - 1));
        to = to - 1;
    }
    assert(rest.take(to - from) =~= text@.subrange(from as int, to as int));
    text.substring_char(from, to)
}

/// Two texts one after the other.
pub fn join2(a: &str, b: &str) -> (r: String)
    ensures
        r@ == a@ + b@,
{
    a.to_owned().concat(b)
}

/// Three texts one after the other.
pub fn join3(a: &str, b: &str, c: &str) -> (r: String)
    ensures
        r@ == a@ + b@ + c@,
{
    a.to_owned().concat(b).concat(c)
}

/// Four texts one after the other.
pub fn join4(a: &str, b: &str, c: &str, d: &str) -> (r: String)
    ensures
        r@ == a@ + b@ + c@ + d@,
{
    a.to_owned().concat(b).concat(c).concat(d)
}

/// The text of one decimal digit.
fn digit_text(d: u64) -> (r: &'static str)
    requires
        d < 10,
    ensures
        r@ == seq![digit(d as nat)],
{
    proof {
        reveal_strlit("0");
        reveal_strlit("1");
        reveal_strlit("2");
        reveal_strlit("3");
        reveal_strlit("4");
        reveal_strlit("5");
        reveal_strlit("6");
        reveal_strlit("7");
        reveal_strlit("8");
        reveal_strlit("9");
    }
    match d {
        0 => "0",
        1 => "1",
        2 => "2",
        3 => "3",
        4 => "4",
        5 => "5",
        6 => "6",
        7 => "7",
        8 => "8",
        _ => "9",
    }
}

/// A number in decimal notation.
pub fn number_text(n: u64) -> (r: String)
    ensures
        r@ == decimal(n as nat),
    decreases n,
{
    if n < 10 {
        digit_text(n).to_owned()
    } else {
        let high = number_text(n / 10);
        let r = high.concat(digit_text(n % 10));
        assert(r@ =~= decimal(n as nat));
        r
    }
}

/// A large number in decimal notation.
pub fn long_number_text(n: u128) -> (r: String)
    ensures
        r@ == decimal(n as nat),
    decreases n,
{
    if n < 10 {
        digit_text(n as u64).to_owned()
    } else {
        let high = long_number_text(n / 10);
        let r = high.concat(digit_text((n % 10) as u64));
        assert(r@ =~= decimal(n as nat));
        r
    }
}

/// A signed number in decimal notation.
pub fn signed_number_text(n: i64) -> (r: String)
    ensures
        r@ == signed_decimal(n as int),
{
    if n < 0 {
        proof {
            reveal_strlit("-");
        }
        let size: u64 = ((-(n as i128)) as u64);
        let digits = number_text(size);
        let r = join2("-", digits.as_str());
        assert("-"@ =~= seq!['-']);
        r
    } else {
        number_text(n as u64)
    }
}

/// A text with every `from` character written as `to`.
pub fn replace(text: &str, from: char, to: &str) -> (r: String)
    ensures
        r@ == substituted(text@, from, to@),
{
    let chars = chars_of(text);
    let mut r = String::new();
    assert(text@.take(0) =~= Seq::<char>::empty());
    for i in 0..chars.len()
        invariant
            chars@ == text@,
            r@ == substituted(text@.take(i as int), from, to@),
    {
        assert(text@.take(i + 1).drop_last() =~= text@.take(i as int));
        assert(text@.subrange(i as int, i + 1) =~= seq![text@[i as int]]);
        if chars[i] == from {
            r = r.concat(to);
        } else {
            r = r.concat(text.substring_char(i, i + 1));
        }
    }
    assert(text@.take(text@.len() as int) =~= text@);
    r
}

} // verus!
