//! Text helpers shared by the lexer and the assembly passes.

use vstd::prelude::*;

verus! {

/// `String::push` appends one character.
pub assume_specification[ std::string::String::push ](s: &mut std::string::String, c: char)
    ensures
        final(s)@ == old(s)@.push(c),
;

/// Whether the text is the literal.
pub fn equals(text: &String, literal: &str) -> (same: bool)
    ensures
        same == (text@ == literal@),
{
    let other = literal.to_owned();
    *text == other
}

/// The characters of a string, in order.
pub fn chars_of(s: &str) -> (out: Vec<char>)
    ensures
        out@ == s@,
{
    let mut out: Vec<char> = Vec::new();
    for c in it: s.chars()
        invariant
            out@ == it.seq().take(it.index()),
            it.seq() == s@,
    {
        out.push(c);
    }
    out
}

/// The string of the characters from `from` up to, not including, `to`.
pub fn string_of(chars: &Vec<char>, from: usize, to: usize) -> (out: String)
    requires
        from <= to <= chars.len(),
    ensures
        out@ == chars@.subrange(from as int, to as int),
{
    let mut out = String::new();
    let mut i: usize = from;
    while i < to
        invariant
            from <= i <= to <= chars.len(),
            out@ == chars@.subrange(from as int, i as int),
        decreases to - i,
    {
        out.push(chars[i]);
        i += 1;
        assert(out@ =~= chars@.subrange(from as int, i as int));
    }
    out
}

/// Whether the character is one of `0` to `9`.
pub open spec fn is_digit(c: char) -> bool {
    '0' <= c <= '9'
}

/// The number that a sequence of decimal digits writes, the last digit
/// counting least.
pub open spec fn digits_value(digits: Seq<char>) -> nat
    decreases digits.len(),
{
    if digits.len() == 0 {
        0
    } else {
        digits_value(digits.drop_last()) * 10 + (digits.last() as u32 - '0' as u32) as nat
    }
}

/// The number that the text writes in decimal, if it is made of one digit or
/// more and the number fits a machine word.
pub open spec fn decimal(text: Seq<char>) -> Option<usize> {
    if text.len() > 0 && (forall|i: int| 0 <= i < text.len() ==> is_digit(#[trigger] text[i]))
        && digits_value(text) <= usize::MAX {
        Some(digits_value(text) as usize)
    } else {
        None
    }
}

/// A longer sequence of digits writes no smaller a number than any of its
/// prefixes.
pub proof fn lemma_digits_value_grows(digits: Seq<char>, prefix: int)
    requires
        0 <= prefix <= digits.len(),
        forall|i: int| 0 <= i < digits.len() ==> is_digit(#[trigger] digits[i]),
    ensures
        digits_value(digits.take(prefix)) <= digits_value(digits),
    decreases digits.len() - prefix,
{
    if prefix == digits.len() {
        assert(digits.take(prefix) == digits);
    } else {
        let longer = digits.take(prefix + 1);
        assert(longer.drop_last() == digits.take(prefix));
        assert(is_digit(digits[prefix]));
        assert(longer.last() == digits[prefix]);
        lemma_digits_value_grows(digits, prefix + 1);
    }
}

/// Reads a decimal number.
pub fn parse_decimal(text: &str) -> (number: Option<usize>)
    ensures
        number == decimal(text@),
{
    let chars = chars_of(text);
    if chars.len() == 0 {
        return None;
    }
    let mut value: usize = 0;
    let mut i: usize = 0;
    while i < chars.len()
        invariant
            i <= chars.len(),
            chars@ == text@,
            forall|j: int| 0 <= j < i ==> is_digit(#[trigger] chars@[j]),
            value == digits_value(chars@.take(i as int)),
        decreases chars.len() - i,
    {
        let c = chars[i];
        if !(c >= '0' && c <= '9') {
            return None;
        }
        let digit: usize = (c as u32 - '0' as u32) as usize;
        proof {
            let longer = chars@.take(i + 1);
            assert(longer.drop_last() == chars@.take(i as int));
            assert(longer.last() == c);
            if value > (usize::MAX - digit) / 10 {
                assert(digits_value(longer) > usize::MAX);
                if forall|j: int| 0 <= j < chars@.len() ==> is_digit(#[trigger] chars@[j]) {
                    lemma_digits_value_grows(chars@, i + 1);
                }
            }
        }
        if value > (usize::MAX - digit) / 10 {
            return None;
        }
        value = value * 10 + digit;
        i += 1;
    }
    assert(chars@.take(i as int) == chars@);
    Some(value)
}

/// The decimal digits of a number, the last digit counting least.
pub open spec fn decimal_text(number: nat) -> Seq<char>
    decreases number,
{
    if number < 10 {
        seq![(48 + number) as u8 as char]
    } else {
        decimal_text(number / 10).push((48 + number % 10) as u8 as char)
    }
}

/// The decimal digits of a number write that number.
pub proof fn lemma_decimal_text(number: nat)
    ensures
        decimal_text(number).len() > 0,
        forall|i: int| 0 <= i < decimal_text(number).len() ==> is_digit(#[trigger] decimal_text(number)[i]),
        digits_value(decimal_text(number)) == number,
    decreases number,
{
    if number < 10 {
        let text = decimal_text(number);
        assert(text.drop_last() =~= Seq::<char>::empty());
        assert(digits_value(text.drop_last()) == 0);
        assert(text.last() == (48 + number) as u8 as char);
    } else {
        lemma_decimal_text(number / 10);
        let text = decimal_text(number);
        assert(text.drop_last() =~= decimal_text(number / 10));
        assert(text.last() == (48 + number % 10) as u8 as char);
    }
}

/// What [`decimal`] reads from the decimal digits of a machine word is that
/// word.
pub proof fn lemma_decimal_round_trip(number: usize)
    ensures
        decimal(decimal_text(number as nat)) == Some(number),
{
    lemma_decimal_text(number as nat);
}

/// Writes a number in decimal.
pub fn to_decimal(number: usize) -> (text: String)
    ensures
        text@ == decimal_text(number as nat),
{
    let mut digits: Vec<char> = Vec::new();
    let mut rest: usize = number;
    while rest >= 10
        invariant
            decimal_text(number as nat) == decimal_text(rest as nat) + reversed(digits@),
        decreases rest,
    {
        let digit: u8 = (rest % 10) as u8;
        let ghost before = digits@;
        digits.push((48 + digit) as char);
        proof {
            assert(reversed(digits@) =~= seq![(48 + digit) as char] + reversed(before));
            assert(decimal_text(rest as nat) == decimal_text((rest / 10) as nat).push(
                (48 + digit) as char,
            ));
            assert(decimal_text((rest / 10) as nat).push((48 + digit) as char) + reversed(before)
                =~= decimal_text((rest / 10) as nat) + reversed(digits@));
        }
        rest = rest / 10;
    }
    let mut text = String::new();
    text.push((48 + rest as u8) as char);
    let mut i: usize = digits.len();
    assert(reversed(digits@).take(0) =~= Seq::<char>::empty());
    while i > 0
        invariant
            i <= digits.len(),
            text@ == seq![(48 + rest as u8) as char] + reversed(digits@).take(digits.len() - i),
        decreases i,
    {
        i -= 1;
        text.push(digits[i]);
        assert(reversed(digits@).take(digits.len() - i) =~= reversed(digits@).take(
            digits.len() - i - 1,
        ).push(digits@[i as int]));
        assert(text@ =~= seq![(48 + rest as u8) as char] + reversed(digits@).take(
            digits.len() - i,
        ));
    }
    assert(reversed(digits@).take(digits.len() as int) =~= reversed(digits@));
    text
}

/// The sequence from its end to its start.
pub open spec fn reversed(items: Seq<char>) -> Seq<char> {
    Seq::new(items.len(), |i: int| items[items.len() - 1 - i])
}

/// The full path of a contract: the path of its file, a colon, its name.
pub open spec fn full_path(path: Seq<char>, name: Seq<char>) -> Seq<char> {
    path + seq![':'] + name
}

/// The full path of a contract.
pub fn join_path(path: &str, name: &str) -> (joined: String)
    ensures
        joined@ == full_path(path@, name@),
{
    let mut joined = path.to_owned();
    joined.push(':');
    joined.append(name);
    assert(joined@ =~= full_path(path@, name@));
    joined
}

/// Whether the first text comes before the second in the order of texts:
/// at the first place where they differ the first has the smaller
/// character, or the first ends there and the second goes on.
pub open spec fn precedes(first: Seq<char>, second: Seq<char>) -> bool
    decreases first.len(),
{
    if second.len() == 0 {
        false
    } else if first.len() == 0 {
        true
    } else if first[0] != second[0] {
        first[0] < second[0]
    } else {
        precedes(first.drop_first(), second.drop_first())
    }
}

/// Of two different texts one comes before the other, and never both; no
/// text comes before itself.
pub proof fn lemma_precedes_total(first: Seq<char>, second: Seq<char>)
    ensures
        first != second ==> precedes(first, second) || precedes(second, first),
        !(precedes(first, second) && precedes(second, first)),
        first == second ==> !precedes(first, second),
    decreases first.len(),
{
    if first.len() > 0 && second.len() > 0 && first[0] == second[0] {
        lemma_precedes_total(first.drop_first(), second.drop_first());
        if first.drop_first() == second.drop_first() {
            assert(first =~= seq![first[0]] + first.drop_first());
            assert(second =~= seq![second[0]] + second.drop_first());
        }
    } else if first.len() == 0 && second.len() == 0 {
        assert(first =~= second);
    }
}

/// What comes before a text that comes before a third comes before the
/// third.
pub proof fn lemma_precedes_transitive(first: Seq<char>, second: Seq<char>, third: Seq<char>)
    requires
        precedes(first, second),
        precedes(second, third),
    ensures
        precedes(first, third),
    decreases first.len(),
{
    if first.len() > 0 && first[0] == second[0] && second[0] == third[0] {
        lemma_precedes_transitive(first.drop_first(), second.drop_first(), third.drop_first());
    }
}

/// Whether the texts ascend: each comes before all behind it, so that none
/// stands twice.
pub open spec fn ascending(keys: Seq<Seq<char>>) -> bool {
    forall|i: int, j: int| 0 <= i < j < keys.len() ==> precedes(#[trigger] keys[i], #[trigger] keys[j])
}

/// The index of the first of the texts, at or behind `from`, that does not
/// come before the given one; their number where all do.
pub open spec fn rank(keys: Seq<Seq<char>>, key: Seq<char>, from: int) -> int
    decreases keys.len() - from,
{
    if 0 <= from < keys.len() && precedes(keys[from], key) {
        rank(keys, key, from + 1)
    } else {
        from
    }
}

/// The rank of a text lies among the texts; the texts before it come before
/// the text, and the text at it does not.
pub proof fn lemma_rank(keys: Seq<Seq<char>>, key: Seq<char>, from: int)
    requires
        0 <= from <= keys.len(),
        forall|i: int| 0 <= i < from ==> precedes(#[trigger] keys[i], key),
    ensures
        from <= rank(keys, key, from) <= keys.len(),
        forall|i: int| 0 <= i < rank(keys, key, from) ==> precedes(#[trigger] keys[i], key),
        rank(keys, key, from) < keys.len() ==> !precedes(keys[rank(keys, key, from)], key),
    decreases keys.len() - from,
{
    if from < keys.len() && precedes(keys[from], key) {
        lemma_rank(keys, key, from + 1);
    }
}

/// Ascending texts with one more put in at its rank ascend, where the text
/// does not stand at its rank already.
pub proof fn lemma_put_ascends(keys: Seq<Seq<char>>, key: Seq<char>)
    requires
        ascending(keys),
    ensures
        0 <= rank(keys, key, 0) <= keys.len(),
        !(rank(keys, key, 0) < keys.len() && keys[rank(keys, key, 0)] == key) ==> ascending(
            keys.insert(rank(keys, key, 0), key),
        ),
{
    lemma_rank(keys, key, 0);
    let at = rank(keys, key, 0);
    if !(at < keys.len() && keys[at] == key) {
        let after = keys.insert(at, key);
        assert forall|i: int, j: int| 0 <= i < j < after.len() implies precedes(
            #[trigger] after[i],
            #[trigger] after[j],
        ) by {
            if j < at {
                assert(precedes(keys[i], keys[j]));
            } else if j == at {
                assert(precedes(keys[i], key));
            } else if i == at {
                lemma_precedes_total(keys[at], key);
                if j - 1 > at {
                    assert(precedes(keys[at], keys[j - 1]));
                    lemma_precedes_transitive(key, keys[at], keys[j - 1]);
                }
            } else if i < at {
                assert(precedes(keys[i], keys[j - 1]));
            } else {
                assert(precedes(keys[i - 1], keys[j - 1]));
            }
        }
    }
}

/// Whether the first text comes before the second: see [`precedes`].
pub fn comes_before(first: &str, second: &str) -> (yes: bool)
    ensures
        yes == precedes(first@, second@),
{
    let left = chars_of(first);
    let right = chars_of(second);
    let mut i: usize = 0;
    assert(left@.skip(0) =~= left@);
    assert(right@.skip(0) =~= right@);
    loop
        invariant
            i <= left.len(),
            i <= right.len(),
            left@ == first@,
            right@ == second@,
            precedes(first@, second@) == precedes(left@.skip(i as int), right@.skip(i as int)),
        decreases left.len() - i,
    {
        if i >= right.len() {
            return false;
        }
        if i >= left.len() {
            return true;
        }
        assert(left@.skip(i as int)[0] == left@[i as int]);
        assert(right@.skip(i as int)[0] == right@[i as int]);
        assert(left@.skip(i as int).drop_first() =~= left@.skip(i + 1));
        assert(right@.skip(i as int).drop_first() =~= right@.skip(i + 1));
        if left[i] != right[i] {
            return left[i] < right[i];
        }
        i += 1;
    }
}

} // verus!
