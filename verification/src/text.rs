//! Text: decimal numbers, containment, and `CompactString`.

use compact_str::CompactString;
use vstd::prelude::*;
use vstd::string::*;

verus! {

/// The character of a decimal digit.
pub open spec fn digit_char(digit: nat) -> char {
    (('0' as nat) + digit) as char
}

/// `number` in decimal notation, without leading zeros.
pub open spec fn decimal(number: nat) -> Seq<char>
    decreases number,
{
    if number < 10 {
        seq![digit_char(number)]
    } else {
        decimal(number / 10).push(digit_char(number % 10))
    }
}

/// One decimal digit as text.
fn digit_text(digit: u64) -> (text: &'static str)
    requires
        digit < 10,
    ensures
        text@ == seq![digit_char(digit as nat)],
{
    proof {
        reveal_strlit("0");
        reveal_strlit("1");
        reveal_strlit("2");
        reveal_strlit("3");
        reveal_strlit("4");
        reveal_strlit("5");
        reveal_strlit("6");
        reveal_strlit("7");
        reveal_strlit("8");
        reveal_strlit("9");
    }
    match digit {
        0 => "0",
        1 => "1",
        2 => "2",
        3 => "3",
        4 => "4",
        5 => "5",
        6 => "6",
        7 => "7",
        8 => "8",
        _ => "9",
    }
}

/// `number` in decimal notation.
pub fn decimal_text(number: u64) -> (text: String)
    ensures
        text@ == decimal(number as nat),
    decreases number,
{
    if number < 10 {
        digit_text(number).to_owned()
    } else {
        let mut text = decimal_text(number / 10);
        text.append(digit_text(number % 10));
        text
    }
}

/// `part` occurs in `whole`, without a gap.
pub open spec fn contains_text(whole: Seq<char>, part: Seq<char>) -> bool {
    exists|at: int|
        0 <= at <= whole.len() - part.len() && #[trigger] whole.subrange(at, at + part.len())
            == part
}

/// A text contains each of its parts.
pub proof fn lemma_contains_part(before: Seq<char>, part: Seq<char>, after: Seq<char>)
    ensures
        contains_text(before + part + after, part),
{
    let whole = before + part + after;
    let at = before.len() as int;
    assert(whole.subrange(at, at + part.len()) =~= part);
}

/// No two numbers have the same decimal notation.
pub proof fn law_decimal_identifies_number(a: nat, b: nat)
    requires
        decimal(a) == decimal(b),
    ensures
        a == b,
    decreases a,
{
    assert(decimal(a).last() == digit_char(a % 10));
    assert(decimal(b).last() == digit_char(b % 10));
    if a >= 10 && b >= 10 {
        assert(decimal(a).drop_last() =~= decimal(a / 10));
        assert(decimal(b).drop_last() =~= decimal(b / 10));
        law_decimal_identifies_number(a / 10, b / 10);
    } else {
        lemma_decimal_length(a);
        lemma_decimal_length(b);
    }
}

/// Only the numbers below ten have a notation of one digit.
proof fn lemma_decimal_length(number: nat)
    ensures
        decimal(number).len() >= 1,
        decimal(number).len() == 1 <==> number < 10,
    decreases number,
{
    if number >= 10 {
        lemma_decimal_length(number / 10);
    }
}

/// What a compact string holds: the characters of its text.
pub uninterp spec fn compact_text(compact: CompactString) -> Seq<char>;

#[verifier::external_type_specification]
#[verifier::external_body]
pub struct ExCompactString(CompactString);

/// `CompactString::new` makes a compact string that holds the given text.
#[verifier::external_body]
pub(crate) fn compact(text: &str) -> (compact: CompactString)
    ensures
        compact_text(compact) == text@,
{
    CompactString::new(text)
}

/// `CompactString::as_str` gives the text that a compact string holds.
pub assume_specification[ CompactString::as_str ](whole: &CompactString) -> (slice: &str)
    ensures
        slice@ == compact_text(*whole),
;

/// `CompactString::clone` makes a compact string that holds the same text.
pub assume_specification[ <CompactString as Clone>::clone ](whole: &CompactString) -> (copy:
    CompactString)
    ensures
        compact_text(copy) == compact_text(*whole),
;

/// `CompactString::eq` on a string slice tells whether the two texts are the
/// same.
#[verifier::external_body]
pub(crate) fn holds_text(compact: &CompactString, text: &str) -> (same: bool)
    ensures
        same == (compact_text(*compact) == text@),
{
    compact == text
}

/// The number that a row of decimal digits stands for.
pub open spec fn digits_value(digits: Seq<char>) -> int
    decreases digits.len(),
{
    if digits.len() == 0 {
        0
    } else {
        10 * digits_value(digits.drop_last()) + (digits.last() as int - '0' as int)
    }
}

/// Decimal notation reads back as the number that was written. It is made of
/// the digits `0` to `9` and starts with `0` only for zero itself.
pub proof fn law_decimal_reads_back(number: nat)
    ensures
        digits_value(decimal(number)) == number,
        decimal(number).len() >= 1,
        forall|i: int|
            0 <= i < decimal(number).len() ==> 48 <= (#[trigger] decimal(number)[i]) as int <= 57,
        decimal(number)[0] == '0' <==> number == 0,
    decreases number,
{
    if number < 10 {
        assert(decimal(number).drop_last() =~= seq![]);
        assert(digits_value(seq![]) == 0);
    } else {
        law_decimal_reads_back(number / 10);
        assert(decimal(number).drop_last() =~= decimal(number / 10));
    }
}

/// One more digit behind a number is one more character behind its notation.
pub proof fn law_decimal_grows_by_digits(number: nat, digit: nat)
    requires
        number > 0,
        digit < 10,
    ensures
        decimal(10 * number + digit) == decimal(number) + decimal(digit),
        decimal(digit).len() == 1,
        decimal(digit)[0] as int == 48 + digit,
{
    assert((10 * number + digit) / 10 == number);
    assert((10 * number + digit) % 10 == digit);
}

/// A text contains a part exactly where it is that part with something, or
/// nothing, before and after it.
pub proof fn law_contained_part_has_surroundings(whole: Seq<char>, part: Seq<char>)
    ensures
        contains_text(whole, part) <==> exists|before: Seq<char>, after: Seq<char>|
            whole == #[trigger] (before + part + after),
{
    if contains_text(whole, part) {
        let at = choose|at: int|
            0 <= at <= whole.len() - part.len() && #[trigger] whole.subrange(at, at + part.len())
                == part;
        let before = whole.take(at);
        let after = whole.skip(at + part.len());
        assert(whole.subrange(at, at + part.len()) =~= part);
        assert forall|i: int| 0 <= i < whole.len() implies whole[i] == (before + part + after)[i] by {
            if at <= i < at + part.len() {
                assert(whole.subrange(at, at + part.len())[i - at] == whole[i]);
            }
        }
        assert(whole =~= before + part + after);
    }
    if exists|before: Seq<char>, after: Seq<char>| whole == #[trigger] (before + part + after) {
        let (before, after) = choose|before: Seq<char>, after: Seq<char>|
            whole == #[trigger] (before + part + after);
        lemma_contains_part(before, part, after);
    }
}

} // verus!
