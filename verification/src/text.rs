//! Numbers written out as text and read back, and text cut into parts.

use vstd::prelude::*;
use vstd::string::StringExecFns;

verus! {

/// The ten digits of base 10, as text.
pub open spec fn decimal_digits() -> Seq<char> {
    "0123456789"@
}

/// The number written in base 10, without sign and without leading zeros.
pub open spec fn decimal(n: nat) -> Seq<char>
    decreases n,
{
    if n < 10 {
        seq![decimal_digits()[n as int]]
    } else {
        decimal(n / 10).push(decimal_digits()[(n % 10) as int])
    }
}

/// Whether the character is a digit of base 10.
pub open spec fn is_digit(c: char) -> bool {
    '0' <= c <= '9'
}

/// Whether the text is made of digits of base 10 alone.
pub open spec fn all_digits(text: Seq<char>) -> bool {
    forall|i: int| 0 <= i < text.len() ==> is_digit(#[trigger] text[i])
}

/// The number that digits of base 10 stand for. The empty text stands for 0.
pub open spec fn digits_value(text: Seq<char>) -> nat
    decreases text.len(),
{
    if text.len() == 0 {
        0
    } else {
        (digits_value(text.drop_last()) * 10 + (text.last() as u32 - '0' as u32)) as nat
    }
}

/// The text cut at each occurrence of the separator. There is one part more
/// than there are separators, and a part may be empty.
pub open spec fn split(text: Seq<char>, separator: char) -> Seq<Seq<char>>
    decreases text.len(),
{
    if text.len() == 0 {
        seq![Seq::empty()]
    } else {
        let before = split(text.drop_last(), separator);
        if text.last() == separator {
            before.push(Seq::empty())
        } else {
            before.update(before.len() - 1, before.last().push(text.last()))
        }
    }
}

/// What a list of parts holds: the characters of each, in the same order.
pub open spec fn parts(tokens: Seq<Vec<char>>) -> Seq<Seq<char>> {
    Seq::new(tokens.len(), |i: int| tokens[i]@)
}

/// The digits that were split off a number, lowest first, written in the
/// order in which they are read.
spec fn written(low_first: Seq<u8>) -> Seq<char> {
    Seq::new(low_first.len(), |i: int| decimal_digits()[low_first[low_first.len() - 1 - i] as int])
}

/// Writes the number in base 10.
pub fn to_decimal(n: u64) -> (text: String)
    ensures
        text@ == decimal(n as nat),
{
    let digits = "0123456789";
    proof {
        reveal_strlit("0123456789");
    }
    assert(digits.is_ascii());
    let mut low_first: Vec<u8> = Vec::new();
    let mut rest: u64 = n;
    while rest >= 10
        invariant
            decimal(n as nat) == decimal(rest as nat) + written(low_first@),
            forall|i: int| 0 <= i < low_first@.len() ==> low_first@[i] < 10,
        decreases rest,
    {
        let ghost before = low_first@;
        let digit: u8 = (rest % 10) as u8;
        low_first.push(digit);
        rest = rest / 10;
        assert(written(low_first@) =~= seq![decimal_digits()[digit as int]] + written(before));
        assert(decimal(rest as nat).push(decimal_digits()[digit as int]) + written(before)
            =~= decimal(rest as nat) + written(low_first@));
    }
    let first: usize = rest as usize;
    let mut text = String::from_str(digits.substring_ascii(first, first + 1));
    assert(text@ =~= decimal(rest as nat));
    let mut left: usize = low_first.len();
    while left > 0
        invariant
            left <= low_first@.len(),
            digits@ == decimal_digits(),
            digits@.len() == 10,
            digits.is_ascii(),
            forall|i: int| 0 <= i < low_first@.len() ==> low_first@[i] < 10,
            text@ == decimal(rest as nat) + written(low_first@).take(low_first@.len() - left),
        decreases left,
    {
        left -= 1;
        let digit: usize = low_first[left] as usize;
        text.append(digits.substring_ascii(digit, digit + 1));
        assert(text@ =~= decimal(rest as nat) + written(low_first@).take(
            low_first@.len() - left,
        ));
    }
    assert(written(low_first@).take(low_first@.len() as int) =~= written(low_first@));
    text
}

/// Cuts the text at each occurrence of the separator.
pub fn split_at_each(text: &str, separator: char) -> (tokens: Vec<Vec<char>>)
    ensures
        parts(tokens@) == split(text@, separator),
{
    let length = text.unicode_len();
    let mut tokens: Vec<Vec<char>> = Vec::new();
    let mut current: Vec<char> = Vec::new();
    let mut i: usize = 0;
    assert(text@.take(0) =~= Seq::<char>::empty());
    assert(parts(tokens@).push(current@) =~= split(text@.take(0), separator));
    while i < length
        invariant
            length == text@.len(),
            i <= length,
            parts(tokens@).push(current@) == split(text@.take(i as int), separator),
        decreases length - i,
    {
        let ghost before = parts(tokens@).push(current@);
        let c = text.get_char(i);
        proof {
            assert(text@.take(i + 1).drop_last() =~= text@.take(i as int));
            assert(text@.take(i + 1).last() == c);
        }
        if c == separator {
            tokens.push(current);
            current = Vec::new();
            assert(parts(tokens@).push(current@) =~= before.push(Seq::empty()));
        } else {
            current.push(c);
            assert(parts(tokens@).push(current@) =~= before.update(
                before.len() - 1,
                before.last().push(c),
            ));
        }
        i += 1;
    }
    assert(text@.take(length as int) =~= text@);
    let ghost before = parts(tokens@).push(current@);
    tokens.push(current);
    assert(parts(tokens@) =~= before);
    tokens
}

/// Reads a number below `2^16` from digits of base 10. Text that is empty,
/// that holds anything but digits or that stands for a greater number gives
/// nothing.
pub fn read_u16(text: &Vec<char>) -> (number: Option<u16>)
    ensures
        number.is_some() <==> text@.len() > 0 && all_digits(text@) && digits_value(text@) <= u16::MAX,
        number.is_some() ==> number.unwrap() == digits_value(text@),
{
    if text.len() == 0 {
        return None;
    }
    let mut value: u32 = 0;
    let mut i: usize = 0;
    assert(text@.take(0) =~= Seq::<char>::empty());
    while i < text.len()
        invariant
            i <= text@.len(),
            all_digits(text@.take(i as int)),
            value == digits_value(text@.take(i as int)),
            value <= u16::MAX,
        decreases text@.len() - i,
    {
        let c = text[i];
        proof {
            assert(text@.take(i + 1).drop_last() =~= text@.take(i as int));
            assert(text@.take(i + 1).last() == c);
        }
        if c < '0' || c > '9' {
            assert(!all_digits(text@)) by {
                assert(!is_digit(text@[i as int]));
            }
            return None;
        }
        let digit: u32 = c as u32 - '0' as u32;
        value = value * 10 + digit;
        i += 1;
        assert(all_digits(text@.take(i as int))) by {
            assert forall|k: int| 0 <= k < i implies is_digit(#[trigger] text@.take(i as int)[k]) by {
                if k < i - 1 {
                    assert(is_digit(text@.take(i - 1)[k]));
                }
            }
        }
        if value > 65535 {
            proof {
                lemma_digits_value_grows(text@, i as int);
            }
            return None;
        }
    }
    assert(text@.take(i as int) =~= text@);
    Some(value as u16)
}

/// A number written in base 10 is made of digits, one at least, and stands
/// for the number.
pub proof fn law_decimal_reads_back(n: nat)
    ensures
        decimal(n).len() > 0,
        all_digits(decimal(n)),
        digits_value(decimal(n)) == n,
    decreases n,
{
    reveal_strlit("0123456789");
    if n < 10 {
        let text = decimal(n);
        assert(text.drop_last() =~= Seq::<char>::empty());
        assert(digits_value(text.drop_last()) == 0);
    } else {
        law_decimal_reads_back(n / 10);
        let text = decimal(n);
        assert(text.drop_last() =~= decimal(n / 10));
        assert forall|i: int| 0 <= i < text.len() implies is_digit(#[trigger] text[i]) by {
            if i < text.len() - 1 {
                assert(is_digit(decimal(n / 10)[i]));
            }
        }
    }
}

/// Text without the separator after other text stays in the last part: the
/// parts are those of the text before, the last of them made longer.
pub proof fn law_split_grows_last_part(text: Seq<char>, more: Seq<char>, separator: char)
    requires
        forall|i: int| 0 <= i < more.len() ==> more[i] != separator,
    ensures
        split(text, separator).len() > 0,
        split(text + more, separator) == split(text, separator).update(
            split(text, separator).len() - 1,
            split(text, separator).last() + more,
        ),
    decreases more.len(),
{
    lemma_split_has_parts(text, separator);
    let before = split(text, separator);
    if more.len() == 0 {
        assert(text + more =~= text);
        assert(before.last() + more =~= before.last());
        assert(before.update(before.len() - 1, before.last()) =~= before);
    } else {
        let shorter = more.drop_last();
        law_split_grows_last_part(text, shorter, separator);
        assert((text + more).drop_last() =~= text + shorter);
        assert((text + more).last() == more.last());
        assert(more.last() == more[more.len() - 1]);
        assert((before.last() + shorter).push(more.last()) =~= before.last() + more);
        assert(split(text + more, separator) =~= before.update(
            before.len() - 1,
            before.last() + more,
        ));
    }
}

/// A separator after text begins a new, empty part.
pub proof fn law_split_begins_new_part(text: Seq<char>, separator: char)
    ensures
        split(text.push(separator), separator) == split(text, separator).push(Seq::empty()),
{
    assert(text.push(separator).drop_last() =~= text);
}

proof fn lemma_split_has_parts(text: Seq<char>, separator: char)
    ensures
        split(text, separator).len() > 0,
    decreases text.len(),
{
    if text.len() > 0 {
        lemma_split_has_parts(text.drop_last(), separator);
    }
}

/// The value of a text of digits is at least that of each of its beginnings.
proof fn lemma_digits_value_grows(text: Seq<char>, upto: int)
    requires
        0 <= upto <= text.len(),
    ensures
        digits_value(text.take(upto)) <= digits_value(text) || !all_digits(text),
    decreases text.len() - upto,
{
    if upto < text.len() {
        lemma_digits_value_grows(text, upto + 1);
        assert(text.take(upto + 1).drop_last() =~= text.take(upto));
        if all_digits(text) {
            assert(is_digit(text[upto]));
            assert(text.take(upto + 1).last() == text[upto]);
        }
    } else {
        assert(text.take(upto) =~= text);
    }
}

} // verus!
