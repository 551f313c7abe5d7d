//! Plain text as characters: words, lines, fields and decimal numbers.

use vstd::prelude::*;
use vstd::utf8::{decode_utf8, encode_utf8, is_char_boundary};

verus! {

/// Append one character to a text.
///
/// `String::push` adds the character at the end and keeps what was there.
pub assume_specification[ String::push ](text: &mut String, character: char)
    ensures
        final(text)@ == old(text)@.push(character),
;

/// Characters of a text.
pub fn chars_of(text: &str) -> (characters: Vec<char>)
    ensures
        characters@ == text@,
{
    let mut characters: Vec<char> = Vec::new();
    for character in iter: text.chars()
        invariant
            iter.seq() == text@,
            characters@ == text@.take(iter.index()),
    {
        characters.push(character);
        assert(characters@ =~= text@.take(iter.index() + 1));
    }
    assert(characters@ =~= text@);
    characters
}

/// Text of some characters.
pub fn text_of(characters: &Vec<char>) -> (text: String)
    ensures
        text@ == characters@,
{
    let mut text = String::new();
    let mut index: usize = 0;
    while index < characters.len()
        invariant
            index <= characters@.len(),
            text@ == characters@.take(index as int),
        decreases characters@.len() - index,
    {
        text.push(characters[index]);
        index = index + 1;
        assert(text@ =~= characters@.take(index as int));
    }
    assert(characters@.take(index as int) =~= characters@);
    text
}

/// Part of a text from one character position to another.
pub fn part(characters: &Vec<char>, from: usize, to: usize) -> (taken: Vec<char>)
    requires
        from <= to <= characters@.len(),
    ensures
        taken@ == characters@.subrange(from as int, to as int),
{
    let mut taken: Vec<char> = Vec::new();
    let mut index: usize = from;
    while index < to
        invariant
            from <= index <= to <= characters@.len(),
            taken@ == characters@.subrange(from as int, index as int),
        decreases to - index,
    {
        taken.push(characters[index]);
        index = index + 1;
        assert(taken@ =~= characters@.subrange(from as int, index as int));
    }
    taken
}

/// Append a text.
pub fn append(characters: &mut Vec<char>, text: &str)
    ensures
        final(characters)@ == old(characters)@ + text@,
{
    let more = chars_of(text);
    append_chars(characters, &more);
}

/// Append characters.
pub fn append_chars(characters: &mut Vec<char>, more: &Vec<char>)
    ensures
        final(characters)@ == old(characters)@ + more@,
{
    let mut index: usize = 0;
    assert(characters@ =~= old(characters)@ + more@.take(0));
    while index < more.len()
        invariant
            index <= more@.len(),
            characters@ == old(characters)@ + more@.take(index as int),
        decreases more@.len() - index,
    {
        characters.push(more[index]);
        index = index + 1;
        assert(characters@ =~= old(characters)@ + more@.take(index as int));
    }
    assert(more@.take(index as int) =~= more@);
}

/// Copy of some characters.
pub fn copied(characters: &Vec<char>) -> (copy: Vec<char>)
    ensures
        copy@ == characters@,
{
    let copy = part(characters, 0, characters.len());
    assert(copy@ =~= characters@);
    copy
}

/// Whether two texts are the same.
pub fn same(first: &Vec<char>, second: &Vec<char>) -> (equal: bool)
    ensures
        equal == (first@ == second@),
{
    if first.len() != second.len() {
        return false;
    }
    let equal: bool = starts_at(first, second, 0);
    proof {
        assert(first@.subrange(0, first@.len() as int) =~= first@);
    }
    equal
}

/// Whether a text stands in another from a position on.
pub open spec fn stands_at(text: Seq<char>, pattern: Seq<char>, at: int) -> bool {
    &&& 0 <= at
    &&& at + pattern.len() <= text.len()
    &&& text.subrange(at, at + pattern.len()) == pattern
}

/// Whether a pattern stands in a text from a position on.
pub fn starts_at(text: &Vec<char>, pattern: &Vec<char>, at: usize) -> (found: bool)
    ensures
        found == stands_at(text@, pattern@, at as int),
{
    let length: usize = text.len();
    if at > length || length - at < pattern.len() {
        return false;
    }
    let mut index: usize = 0;
    while index < pattern.len()
        invariant
            index <= pattern@.len(),
            at + pattern@.len() <= text@.len() == length,
            forall|i: int| 0 <= i < index ==> #[trigger] pattern@[i] == text@[at + i],
        decreases pattern@.len() - index,
    {
        if text[at + index] != pattern[index] {
            proof {
                let slice = text@.subrange(at as int, at + pattern@.len());
                assert(slice[index as int] != pattern@[index as int]);
            }
            return false;
        }
        index = index + 1;
    }
    assert(text@.subrange(at as int, at + pattern@.len()) =~= pattern@);
    true
}

/// Whether a text begins with a prefix.
pub open spec fn has_prefix(text: Seq<char>, prefix: Seq<char>) -> bool {
    stands_at(text, prefix, 0)
}

/// What follows a prefix.
pub open spec fn after_prefix(text: Seq<char>, prefix: Seq<char>) -> Option<Seq<char>> {
    if has_prefix(text, prefix) {
        Some(text.subrange(prefix.len() as int, text.len() as int))
    } else {
        None
    }
}

/// What follows a prefix, if the text begins with it.
pub fn strip_prefix(text: &Vec<char>, prefix: &str) -> (rest: Option<Vec<char>>)
    ensures
        view_of(rest) == after_prefix(text@, prefix@),
{
    let pattern = chars_of(prefix);
    strip_prefix_chars(text, &pattern)
}

/// What follows a prefix, if the text begins with it.
pub fn strip_prefix_chars(text: &Vec<char>, prefix: &Vec<char>) -> (rest: Option<Vec<char>>)
    ensures
        view_of(rest) == after_prefix(text@, prefix@),
{
    if starts_at(text, prefix, 0) {
        Some(part(text, prefix.len(), text.len()))
    } else {
        None
    }
}

/// Contents of an optional text.
pub open spec fn view_of(text: Option<Vec<char>>) -> Option<Seq<char>> {
    match text {
        Some(text) => Some(text@),
        None => None,
    }
}

/// First position below `bound` where a pattern stands.
pub open spec fn first_below(text: Seq<char>, pattern: Seq<char>, bound: int) -> Option<int>
    decreases bound,
{
    if bound <= 0 {
        None
    } else if first_below(text, pattern, bound - 1) is Some {
        first_below(text, pattern, bound - 1)
    } else if stands_at(text, pattern, bound - 1) {
        Some(bound - 1)
    } else {
        None
    }
}

/// First position of a pattern.
pub open spec fn position(text: Seq<char>, pattern: Seq<char>) -> Option<int> {
    first_below(text, pattern, text.len() as int + 1)
}

proof fn lemma_first_below(text: Seq<char>, pattern: Seq<char>, bound: int)
    ensures
        match first_below(text, pattern, bound) {
            Some(at) => {
                &&& 0 <= at < bound
                &&& stands_at(text, pattern, at)
                &&& forall|i: int| 0 <= i < at ==> !#[trigger] stands_at(text, pattern, i)
            },
            None => forall|i: int| 0 <= i < bound ==> !#[trigger] stands_at(text, pattern, i),
        },
    decreases bound,
{
    if bound > 0 {
        lemma_first_below(text, pattern, bound - 1);
    }
}

/// The first position of a pattern is one where it stands, and it stands at no
/// earlier one; a text without a first position holds the pattern nowhere.
pub proof fn law_position_is_first(text: Seq<char>, pattern: Seq<char>)
    ensures
        match position(text, pattern) {
            Some(at) => {
                &&& stands_at(text, pattern, at)
                &&& forall|i: int| 0 <= i < at ==> !#[trigger] stands_at(text, pattern, i)
            },
            None => forall|i: int| !#[trigger] stands_at(text, pattern, i),
        },
{
    lemma_first_below(text, pattern, text.len() as int + 1);
}

/// First position of a pattern in a text.
pub fn find(text: &Vec<char>, pattern: &Vec<char>) -> (at: Option<usize>)
    ensures
        match at {
            Some(at) => position(text@, pattern@) == Some(at as int) && at + pattern@.len()
                <= text@.len(),
            None => position(text@, pattern@) is None,
        },
{
    let mut index: usize = 0;
    loop
        invariant
            index <= text@.len(),
            first_below(text@, pattern@, index as int) is None,
        decreases text@.len() - index,
    {
        if starts_at(text, pattern, index) {
            proof {
                assert(first_below(text@, pattern@, index + 1) == Some(index as int));
                lemma_prefix_of_search(text@, pattern@, index + 1, text@.len() as int + 1);
            }
            return Some(index);
        }
        assert(first_below(text@, pattern@, index + 1) is None);
        if index == text.len() {
            return None;
        }
        index = index + 1;
    }
}

proof fn lemma_prefix_of_search(text: Seq<char>, pattern: Seq<char>, from: int, to: int)
    requires
        from <= to,
        first_below(text, pattern, from) is Some,
    ensures
        first_below(text, pattern, to) == first_below(text, pattern, from),
    decreases to,
{
    if from < to {
        lemma_prefix_of_search(text, pattern, from, to - 1);
        lemma_first_below(text, pattern, from);
    }
}

/// Text before and after the first place of a pattern.
pub open spec fn halves(text: Seq<char>, pattern: Seq<char>) -> Option<(Seq<char>, Seq<char>)> {
    match position(text, pattern) {
        Some(at) => Some(
            (text.take(at), text.subrange(at + pattern.len(), text.len() as int)),
        ),
        None => None,
    }
}

/// Contents of an optional pair of texts.
pub open spec fn pair_of(pair: Option<(Vec<char>, Vec<char>)>) -> Option<(Seq<char>, Seq<char>)> {
    match pair {
        Some(pair) => Some((pair.0@, pair.1@)),
        None => None,
    }
}

/// Split a text around the first place of a pattern.
pub fn split_once(text: &Vec<char>, pattern: &str) -> (pair: Option<(Vec<char>, Vec<char>)>)
    ensures
        pair_of(pair) == halves(text@, pattern@),
{
    let wanted = chars_of(pattern);
    match find(text, &wanted) {
        Some(at) => {
            let before = part(text, 0, at);
            let length: usize = text.len();
            let after = part(text, at + wanted.len(), length);
            assert(before@ =~= text@.take(at as int));
            Some((before, after))
        },
        None => None,
    }
}

/// Whether a text holds a pattern.
pub open spec fn holds(text: Seq<char>, pattern: Seq<char>) -> bool {
    position(text, pattern) is Some
}

/// Whether a text holds a pattern.
pub fn contains_text(text: &Vec<char>, pattern: &Vec<char>) -> (found: bool)
    ensures
        found == holds(text@, pattern@),
{
    find(text, pattern).is_some()
}

/// Unicode white space.
pub open spec fn white(character: char) -> bool {
    ||| '\u{9}' <= character <= '\u{d}'
    ||| character == ' '
    ||| character == '\u{85}'
    ||| character == '\u{a0}'
    ||| character == '\u{1680}'
    ||| '\u{2000}' <= character <= '\u{200a}'
    ||| character == '\u{2028}'
    ||| character == '\u{2029}'
    ||| character == '\u{202f}'
    ||| character == '\u{205f}'
    ||| character == '\u{3000}'
}

/// Whether a character is Unicode white space.
pub fn is_white(character: char) -> (yes: bool)
    ensures
        yes == white(character),
{
    ('\u{9}' <= character && character <= '\u{d}') || character == ' ' || character == '\u{85}'
        || character == '\u{a0}' || character == '\u{1680}' || ('\u{2000}' <= character
        && character <= '\u{200a}') || character == '\u{2028}' || character == '\u{2029}'
        || character == '\u{202f}' || character == '\u{205f}' || character == '\u{3000}'
}

/// Finished words and the word in progress at the end of a text.
pub open spec fn word_scan(text: Seq<char>) -> (Seq<Seq<char>>, Seq<char>)
    decreases text.len(),
{
    if text.len() == 0 {
        (Seq::empty(), Seq::empty())
    } else {
        let (words, current) = word_scan(text.drop_last());
        if !white(text.last()) {
            (words, current.push(text.last()))
        } else if current.len() == 0 {
            (words, current)
        } else {
            (words.push(current), Seq::empty())
        }
    }
}

/// The longest runs of characters that are not white space, in order.
pub open spec fn words(text: Seq<char>) -> Seq<Seq<char>> {
    let (words, current) = word_scan(text);
    if current.len() == 0 {
        words
    } else {
        words.push(current)
    }
}

/// Contents of a list of texts.
pub open spec fn views(list: Seq<Vec<char>>) -> Seq<Seq<char>> {
    list.map_values(|text: Vec<char>| text@)
}

proof fn lemma_views_push(list: Seq<Vec<char>>, text: Vec<char>)
    ensures
        views(list.push(text)) == views(list).push(text@),
{
    assert(views(list.push(text)) =~= views(list).push(text@));
}

/// Split a text at white space.
pub fn split_words(text: &Vec<char>) -> (list: Vec<Vec<char>>)
    ensures
        views(list@) == words(text@),
{
    let mut list: Vec<Vec<char>> = Vec::new();
    let mut current: Vec<char> = Vec::new();
    let mut index: usize = 0;
    assert(views(list@) =~= Seq::empty());
    assert(text@.take(0) =~= Seq::empty());
    while index < text.len()
        invariant
            index <= text@.len(),
            (views(list@), current@) == word_scan(text@.take(index as int)),
        decreases text@.len() - index,
    {
        let character: char = text[index];
        proof {
            assert(text@.take(index + 1).drop_last() =~= text@.take(index as int));
            assert(text@.take(index + 1).last() == character);
        }
        if !is_white(character) {
            current.push(character);
        } else if current.len() > 0 {
            proof {
                lemma_views_push(list@, current);
            }
            list.push(current);
            current = Vec::new();
        }
        index = index + 1;
    }
    assert(text@.take(index as int) =~= text@);
    if current.len() > 0 {
        proof {
            lemma_views_push(list@, current);
        }
        list.push(current);
    }
    list
}

/// Finished lines and the line in progress at the end of a text.
pub open spec fn line_scan(text: Seq<char>) -> (Seq<Seq<char>>, Seq<char>)
    decreases text.len(),
{
    if text.len() == 0 {
        (Seq::empty(), Seq::empty())
    } else {
        let (lines, current) = line_scan(text.drop_last());
        if text.last() != '\n' {
            (lines, current.push(text.last()))
        } else {
            (lines.push(without_return(current)), Seq::empty())
        }
    }
}

/// A line without the carriage return before its end.
pub open spec fn without_return(line: Seq<char>) -> Seq<char> {
    if line.len() > 0 && line.last() == '\r' {
        line.drop_last()
    } else {
        line
    }
}

/// Lines of a text, without their line ends; an end of line begins no line.
pub open spec fn lines(text: Seq<char>) -> Seq<Seq<char>> {
    let (lines, current) = line_scan(text);
    if current.len() == 0 {
        lines
    } else {
        lines.push(current)
    }
}

/// Split a text into lines.
pub fn split_lines(text: &Vec<char>) -> (list: Vec<Vec<char>>)
    ensures
        views(list@) == lines(text@),
{
    let mut list: Vec<Vec<char>> = Vec::new();
    let mut current: Vec<char> = Vec::new();
    let mut index: usize = 0;
    assert(views(list@) =~= Seq::empty());
    assert(text@.take(0) =~= Seq::empty());
    while index < text.len()
        invariant
            index <= text@.len(),
            (views(list@), current@) == line_scan(text@.take(index as int)),
        decreases text@.len() - index,
    {
        let character: char = text[index];
        proof {
            assert(text@.take(index + 1).drop_last() =~= text@.take(index as int));
            assert(text@.take(index + 1).last() == character);
        }
        if character != '\n' {
            current.push(character);
        } else {
            let ghost line = current@;
            let length: usize = current.len();
            if length > 0 && current[length - 1] == '\r' {
                current.pop();
                assert(current@ =~= line.drop_last());
            }
            proof {
                lemma_views_push(list@, current);
            }
            list.push(current);
            current = Vec::new();
        }
        index = index + 1;
    }
    assert(text@.take(index as int) =~= text@);
    if current.len() > 0 {
        proof {
            lemma_views_push(list@, current);
        }
        list.push(current);
    }
    list
}

/// A text without leading white space.
pub open spec fn trimmed_start(text: Seq<char>) -> Seq<char>
    decreases text.len(),
{
    if text.len() > 0 && white(text[0]) {
        trimmed_start(text.subrange(1, text.len() as int))
    } else {
        text
    }
}

/// A text without trailing white space.
pub open spec fn trimmed_end(text: Seq<char>) -> Seq<char>
    decreases text.len(),
{
    if text.len() > 0 && white(text.last()) {
        trimmed_end(text.drop_last())
    } else {
        text
    }
}

/// A text without white space around it.
pub open spec fn trimmed(text: Seq<char>) -> Seq<char> {
    trimmed_end(trimmed_start(text))
}

/// Remove the white space around a text.
pub fn trim(text: &Vec<char>) -> (inner: Vec<char>)
    ensures
        inner@ == trimmed(text@),
{
    let mut from: usize = 0;
    assert(text@.subrange(0, text@.len() as int) =~= text@);
    while from < text.len() && is_white(text[from])
        invariant
            from <= text@.len(),
            trimmed_start(text@) == trimmed_start(text@.subrange(from as int, text@.len() as int)),
        decreases text@.len() - from,
    {
        proof {
            let rest = text@.subrange(from as int, text@.len() as int);
            assert(rest.subrange(1, rest.len() as int) =~= text@.subrange(
                from + 1,
                text@.len() as int,
            ));
        }
        from = from + 1;
    }
    let ghost start = text@.subrange(from as int, text@.len() as int);
    assert(start.len() > 0 ==> start[0] == text@[from as int]);
    assert(trimmed_start(text@) == start);
    let mut to: usize = text.len();
    while to > from && is_white(text[to - 1])
        invariant
            from <= to <= text@.len(),
            trimmed_end(start) == trimmed_end(text@.subrange(from as int, to as int)),
        decreases to,
    {
        proof {
            let rest = text@.subrange(from as int, to as int);
            assert(rest.last() == text@[to - 1]);
            assert(rest.drop_last() =~= text@.subrange(from as int, to - 1));
        }
        to = to - 1;
    }
    proof {
        let rest = text@.subrange(from as int, to as int);
        assert(rest.len() > 0 ==> rest.last() == text@[to - 1]);
    }
    part(text, from, to)
}

/// Decimal digit.
pub open spec fn digit(character: char) -> bool {
    '0' <= character <= '9'
}

/// ASCII letter or digit.
pub open spec fn alphanumeric(character: char) -> bool {
    ||| digit(character)
    ||| 'A' <= character <= 'Z'
    ||| 'a' <= character <= 'z'
}

/// Whether a character is an ASCII letter or digit.
pub fn is_alphanumeric(character: char) -> (yes: bool)
    ensures
        yes == alphanumeric(character),
{
    ('0' <= character && character <= '9') || ('A' <= character && character <= 'Z') || ('a'
        <= character && character <= 'z')
}

/// Number that decimal digits stand for.
pub open spec fn value(digits: Seq<char>) -> int
    decreases digits.len(),
{
    if digits.len() == 0 {
        0
    } else {
        value(digits.drop_last()) * 10 + (digits.last() as int - '0' as int)
    }
}

/// Digits of a number that may carry a plus sign.
pub open spec fn unsigned_digits(text: Seq<char>) -> Seq<char> {
    if text.len() > 0 && text[0] == '+' {
        text.subrange(1, text.len() as int)
    } else {
        text
    }
}

/// Unsigned number of at most `limit` that a text stands for: an optional plus
/// sign and at least one digit.
pub open spec fn number(text: Seq<char>, limit: int) -> Option<int> {
    let digits = unsigned_digits(text);
    if digits.len() > 0 && (forall|i: int| 0 <= i < digits.len() ==> digit(#[trigger] digits[i]))
        && value(digits) <= limit {
        Some(value(digits))
    } else {
        None
    }
}

proof fn lemma_value_grows(digits: Seq<char>, count: int)
    requires
        0 <= count <= digits.len(),
        forall|i: int| 0 <= i < digits.len() ==> digit(#[trigger] digits[i]),
    ensures
        0 <= value(digits.take(count)) <= value(digits),
    decreases digits.len(),
{
    if count < digits.len() {
        let rest = digits.drop_last();
        assert(rest.take(count) =~= digits.take(count));
        lemma_value_grows(rest, count);
        assert(digit(digits[digits.len() - 1]));
    } else {
        assert(digits.take(count) =~= digits);
        if count > 0 {
            let rest = digits.drop_last();
            assert(rest.take(rest.len() as int) =~= rest);
            lemma_value_grows(rest, rest.len() as int);
            assert(digit(digits[digits.len() - 1]));
        }
    }
}

/// A number that a text stands for is not negative and not above its limit.
pub broadcast proof fn lemma_number_range(text: Seq<char>, limit: int)
    ensures
        #[trigger] number(text, limit) matches Some(found) ==> 0 <= found <= limit,
{
    if number(text, limit) is Some {
        lemma_value_grows(unsigned_digits(text), 0);
    }
}

/// Read an unsigned number of at most `limit`.
pub fn parse_number(text: &Vec<char>, limit: u64) -> (parsed: Option<u64>)
    ensures
        match parsed {
            Some(parsed) => number(text@, limit as int) == Some(parsed as int),
            None => number(text@, limit as int) is None,
        },
{
    let from: usize = if text.len() > 0 && text[0] == '+' {
        1
    } else {
        0
    };
    let digits = part(text, from, text.len());
    proof {
        assert(from == 0 ==> digits@ =~= text@);
        assert(digits@ == unsigned_digits(text@));
    }
    if digits.len() == 0 {
        return None;
    }
    let mut total: u64 = 0;
    let mut index: usize = 0;
    while index < digits.len()
        invariant
            index <= digits@.len(),
            digits@ == unsigned_digits(text@),
            total <= limit,
            total == value(digits@.take(index as int)),
            forall|i: int| 0 <= i < index ==> digit(#[trigger] digits@[i]),
        decreases digits@.len() - index,
    {
        let character: char = digits[index];
        if !('0' <= character && character <= '9') {
            assert(!digit(digits@[index as int]));
            return None;
        }
        let unit: u64 = character as u64 - 48;
        proof {
            assert(digits@.take(index + 1).drop_last() =~= digits@.take(index as int));
            assert(digits@.take(index + 1).last() == character);
            assert(value(digits@.take(index + 1)) == total * 10 + unit);
        }
        if total > (u64::MAX - unit) / 10 || total * 10 + unit > limit {
            proof {
                if forall|i: int| 0 <= i < digits@.len() ==> digit(#[trigger] digits@[i]) {
                    lemma_value_grows(digits@, index + 1);
                }
            }
            return None;
        }
        total = total * 10 + unit;
        index = index + 1;
    }
    assert(digits@.take(index as int) =~= digits@);
    Some(total)
}

/// Decimal digit of a small number.
pub open spec fn digit_of(unit: int) -> char {
    (unit + '0' as int) as char
}

/// Decimal form of a number.
pub open spec fn decimal(number: int) -> Seq<char>
    decreases number,
{
    if number < 10 {
        seq![digit_of(number)]
    } else {
        decimal(number / 10).push(digit_of(number % 10))
    }
}

/// Decimal form of a number.
pub fn format_number(number: u64) -> (text: Vec<char>)
    ensures
        text@ == decimal(number as int),
    decreases number,
{
    let unit: u8 = (number % 10) as u8;
    let character: char = digit_char(unit);
    if number < 10 {
        let mut text: Vec<char> = Vec::new();
        text.push(character);
        assert(text@ =~= seq![digit_of(number as int)]);
        text
    } else {
        let mut text = format_number(number / 10);
        text.push(character);
        text
    }
}

fn digit_char(unit: u8) -> (character: char)
    requires
        unit < 10,
    ensures
        character == digit_of(unit as int),
{
    let code: u8 = unit + 48;
    code as char
}

/// A number reads back from its decimal form.
pub proof fn law_decimal_reads_back(wanted: u64)
    ensures
        number(decimal(wanted as int), u64::MAX as int) == Some(wanted as int),
{
    lemma_decimal(wanted as int);
    let text = decimal(wanted as int);
    assert(digit(text[0]));
    assert(unsigned_digits(text) == text);
}

proof fn lemma_decimal(wanted: int)
    requires
        0 <= wanted,
    ensures
        decimal(wanted).len() > 0,
        forall|i: int| 0 <= i < decimal(wanted).len() ==> digit(#[trigger] decimal(wanted)[i]),
        value(decimal(wanted)) == wanted,
    decreases wanted,
{
    let text = decimal(wanted);
    if wanted < 10 {
        assert(text.drop_last() =~= Seq::empty());
        assert(text.last() == digit_of(wanted));
        assert(value(text.drop_last()) == 0);
        assert(digit_of(wanted) as int == wanted + 48);
    } else {
        lemma_decimal(wanted / 10);
        assert(text.drop_last() =~= decimal(wanted / 10));
        assert(text.last() == digit_of(wanted % 10));
        assert(digit_of(wanted % 10) as int == wanted % 10 + 48);
    }
}

/// Whether no listed word has a prefix, or what follows it in the first one.
pub open spec fn first_field(words: Seq<Seq<char>>, prefix: Seq<char>) -> Option<Seq<char>>
    decreases words.len(),
{
    if words.len() == 0 {
        None
    } else if first_field(words.drop_last(), prefix) is Some {
        first_field(words.drop_last(), prefix)
    } else {
        after_prefix(words.last(), prefix)
    }
}

/// What follows a prefix in the first word of a text that has it.
pub open spec fn field_of(text: Seq<char>, prefix: Seq<char>) -> Option<Seq<char>> {
    first_field(words(text), prefix)
}

/// What follows a prefix in the first word of a text that has it.
pub fn field(text: &Vec<char>, prefix: &str) -> (rest: Option<Vec<char>>)
    ensures
        view_of(rest) == field_of(text@, prefix@),
{
    let list = split_words(text);
    let mut found: Option<Vec<char>> = None;
    let mut index: usize = 0;
    assert(views(list@).take(0) =~= Seq::empty());
    while index < list.len()
        invariant
            index <= list@.len(),
            view_of(found) == first_field(views(list@).take(index as int), prefix@),
        decreases list@.len() - index,
    {
        proof {
            assert(views(list@).take(index + 1).drop_last() =~= views(list@).take(index as int));
            assert(views(list@).take(index + 1).last() == list@[index as int]@);
        }
        if found.is_none() {
            found = strip_prefix(&list[index], prefix);
        }
        index = index + 1;
    }
    assert(views(list@).take(index as int) =~= views(list@));
    found
}

/// Whether one of some texts is the wanted one.
pub fn any_is(list: &Vec<Vec<char>>, wanted: &str) -> (found: bool)
    ensures
        found == views(list@).contains(wanted@),
{
    let pattern = chars_of(wanted);
    let mut index: usize = 0;
    while index < list.len()
        invariant
            index <= list@.len(),
            pattern@ == wanted@,
            forall|i: int| 0 <= i < index ==> #[trigger] views(list@)[i] != wanted@,
        decreases list@.len() - index,
    {
        if same(&list[index], &pattern) {
            assert(views(list@)[index as int] == wanted@);
            return true;
        }
        assert(views(list@)[index as int] != wanted@);
        index = index + 1;
    }
    false
}

/// Largest character boundary of some bytes that is not above a limit.
pub open spec fn boundary_below(bytes: Seq<u8>, limit: int) -> int
    decreases limit,
{
    if limit <= 0 || is_char_boundary(bytes, limit) {
        limit
    } else {
        boundary_below(bytes, limit - 1)
    }
}

/// Longest beginning of a text that takes at most `limit` bytes in UTF-8.
pub open spec fn cut(text: Seq<char>, limit: int) -> Seq<char> {
    let bytes = encode_utf8(text);
    if bytes.len() <= limit {
        text
    } else {
        decode_utf8(bytes.take(boundary_below(bytes, limit)))
    }
}

/// Whether a text takes at most `limit` bytes in UTF-8.
pub open spec fn fits(text: Seq<char>, limit: int) -> bool {
    encode_utf8(text).len() <= limit
}

/// Longest beginning of a text that takes at most `limit` bytes.
pub fn cut_text(text: &str, limit: usize) -> (beginning: &str)
    ensures
        beginning@ == cut(text@, limit as int),
{
    broadcast use {
        vstd::utf8::encode_utf8_valid_utf8,
        vstd::utf8::is_char_boundary_start_end_of_seq,
        vstd::utf8::encode_utf8_decode_utf8,
    };

    let bytes = text.as_bytes();
    if bytes.len() <= limit {
        return text;
    }
    let mut end: usize = limit;
    while end > 0 && !text.is_char_boundary(end)
        invariant
            end <= limit < encode_utf8(text@).len(),
            boundary_below(encode_utf8(text@), limit as int) == boundary_below(
                encode_utf8(text@),
                end as int,
            ),
        decreases end,
    {
        end = end - 1;
    }
    let (beginning, _rest) = text.split_at(end);
    beginning
}

/// Last position, not above `at`, where a pattern stands.
pub open spec fn last_from(text: Seq<char>, pattern: Seq<char>, at: int) -> Option<int>
    decreases at + 1,
{
    if at < 0 {
        None
    } else if stands_at(text, pattern, at) {
        Some(at)
    } else {
        last_from(text, pattern, at - 1)
    }
}

/// Text before and after the last place of a pattern.
pub open spec fn last_halves(text: Seq<char>, pattern: Seq<char>) -> Option<
    (Seq<char>, Seq<char>),
> {
    match last_from(text, pattern, text.len() as int) {
        Some(at) => Some(
            (text.take(at), text.subrange(at + pattern.len(), text.len() as int)),
        ),
        None => None,
    }
}

/// Split a text around the last place of a pattern.
pub fn split_last(text: &Vec<char>, pattern: &str) -> (pair: Option<(Vec<char>, Vec<char>)>)
    ensures
        pair_of(pair) == last_halves(text@, pattern@),
{
    let wanted = chars_of(pattern);
    let length: usize = text.len();
    let mut at: usize = length;
    loop
        invariant
            at <= length == text@.len(),
            wanted@ == pattern@,
            last_from(text@, pattern@, at as int) == last_from(text@, pattern@, length as int),
        decreases at,
    {
        if starts_at(text, &wanted, at) {
            let before = part(text, 0, at);
            let after = part(text, at + wanted.len(), length);
            assert(before@ =~= text@.take(at as int));
            return Some((before, after));
        }
        if at == 0 {
            assert(last_from(text@, pattern@, -1) is None);
            return None;
        }
        at = at - 1;
    }
}

/// Characters that are not white space continue the word in progress.
pub proof fn lemma_scan_word(text: Seq<char>, word: Seq<char>)
    requires
        forall|i: int| 0 <= i < word.len() ==> !white(#[trigger] word[i]),
    ensures
        word_scan(text + word) == (word_scan(text).0, word_scan(text).1 + word),
    decreases word.len(),
{
    if word.len() == 0 {
        assert(text + word =~= text);
        assert(word_scan(text).1 + word =~= word_scan(text).1);
    } else {
        let shorter = word.drop_last();
        lemma_scan_word(text, shorter);
        assert((text + word).drop_last() =~= text + shorter);
        assert(!white(word[word.len() - 1]));
        assert(word_scan(text).1 + word =~= (word_scan(text).1 + shorter).push(word.last()));
    }
}

/// A decimal form is not empty and holds no white space.
pub proof fn lemma_decimal_word(wanted: int)
    requires
        0 <= wanted,
    ensures
        decimal(wanted).len() > 0,
        forall|i: int| 0 <= i < decimal(wanted).len() ==> !white(#[trigger] decimal(wanted)[i]),
        forall|i: int| 0 <= i < decimal(wanted).len() ==> digit(#[trigger] decimal(wanted)[i]),
        value(decimal(wanted)) == wanted,
{
    lemma_decimal(wanted);
    assert forall|i: int| 0 <= i < decimal(wanted).len() implies !white(
        #[trigger] decimal(wanted)[i],
    ) by {
        assert(digit(decimal(wanted)[i]));
    }
}

/// Law: a number is written in base ten, most significant digit first, without
/// leading zeros.
pub proof fn law_numbers_are_written_in_base_ten(leading: int, unit: int)
    requires
        0 <= leading,
        0 <= unit <= 9,
    ensures
        decimal(unit) == seq![(48 + unit) as char],
        leading > 0 ==> decimal(10 * leading + unit) == decimal(leading).push((48 + unit) as char),
{
    if leading > 0 {
        let whole = 10 * leading + unit;
        assert(whole / 10 == leading && whole % 10 == unit);
    }
}

/// Law: a number is read in base ten from one or more digits, behind at most one
/// plus sign, up to its limit.
pub proof fn law_numbers_are_read_in_base_ten(
    text: Seq<char>,
    limit: int,
    unit: int,
    other: char,
)
    requires
        0 <= unit <= 9,
        limit >= 9,
    ensures
        number(seq![(48 + unit) as char], limit) == Some(unit),
        number(text, limit) is Some && 10 * number(text, limit)->0 + unit <= limit ==> number(
            text.push((48 + unit) as char),
            limit,
        ) == Some(10 * number(text, limit)->0 + unit),
        number(text, limit) is Some && 10 * number(text, limit)->0 + unit > limit ==> number(
            text.push((48 + unit) as char),
            limit,
        ) is None,
        text.len() == 0 || text[0] != '+' ==> number(seq!['+'] + text, limit) == number(
            text,
            limit,
        ),
        text.len() > 0 && !('0' <= other <= '9') ==> number(text.push(other), limit) is None,
        number(Seq::empty(), limit) is None,
{
    let digit_character = (48 + unit) as char;
    let one = seq![digit_character];
    assert(unsigned_digits(one) == one);
    assert(one.drop_last() =~= Seq::empty());
    assert(value(one.drop_last()) == 0);
    assert(value(one) == unit);
    assert(digit(one[0]));
    assert((seq!['+'] + text).subrange(1, text.len() as int + 1) =~= text);
    if text.len() > 0 {
        let digits = unsigned_digits(text);
        let longer = text.push(digit_character);
        assert(unsigned_digits(longer) =~= digits.push(digit_character));
        assert(digits.push(digit_character).drop_last() =~= digits);
        assert(value(digits.push(digit_character)) == value(digits) * 10 + unit);
        if number(text, limit) is Some {
            assert forall|i: int| 0 <= i < unsigned_digits(longer).len() implies digit(
                #[trigger] unsigned_digits(longer)[i],
            ) by {
                if i < digits.len() {
                    assert(digit(digits[i]));
                }
            }
        }
        let worse = text.push(other);
        assert(unsigned_digits(worse) =~= digits.push(other));
        if !digit(other) {
            assert(!digit(unsigned_digits(worse)[unsigned_digits(worse).len() - 1]));
        }
    }
}

/// Law: which characters are white space.
pub proof fn law_white_space_is_fixed(character: char)
    ensures
        white(character) <==> {
            let code = character as int;
            ||| 9 <= code <= 13
            ||| code == 32
            ||| code == 0x85
            ||| code == 0xa0
            ||| code == 0x1680
            ||| 0x2000 <= code <= 0x200a
            ||| code == 0x2028
            ||| code == 0x2029
            ||| code == 0x202f
            ||| code == 0x205f
            ||| code == 0x3000
        },
        alphanumeric(character) <==> {
            let code = character as int;
            ||| 48 <= code <= 57
            ||| 65 <= code <= 90
            ||| 97 <= code <= 122
        },
{
}

/// Law: words are what stands between white space: a word behind white space is
/// one more word, and white space alone is none.
pub proof fn law_words_stand_between_white_space(text: Seq<char>, gap: char, word: Seq<char>)
    requires
        white(gap),
        word.len() > 0,
        forall|i: int| 0 <= i < word.len() ==> !white(#[trigger] word[i]),
    ensures
        words(Seq::empty()) == Seq::<Seq<char>>::empty(),
        words(word) == seq![word],
        words(text.push(gap)) == words(text),
        words(text.push(gap) + word) == words(text).push(word),
{
    let open = text.push(gap);
    assert(open.drop_last() =~= text);
    lemma_scan_word(open, word);
    assert(word_scan(open).1 == Seq::<char>::empty());
    assert(Seq::<char>::empty() + word =~= word);
    lemma_scan_word(Seq::empty(), word);
    assert(words(word) =~= seq![word]);
}

/// Law: lines end at line feeds, with or without a carriage return before them;
/// the last line needs no end.
pub proof fn law_lines_end_at_line_feeds(text: Seq<char>, line: Seq<char>)
    requires
        forall|i: int| 0 <= i < line.len() ==> #[trigger] line[i] != '\n',
    ensures
        lines(Seq::empty()) == Seq::<Seq<char>>::empty(),
        line.len() > 0 ==> lines(text.push('\n') + line) == lines(text.push('\n')).push(line),
        line.len() == 0 || line.last() != '\r' ==> {
            &&& lines(text.push('\n') + line.push('\n')) == lines(text.push('\n')).push(line)
            &&& lines(text.push('\n') + line.push('\r').push('\n')) == lines(
                text.push('\n'),
            ).push(line)
        },
{
    let open = text.push('\n');
    assert(line_scan(open).1 == Seq::<char>::empty());
    lemma_scan_line(open, line);
    assert(Seq::<char>::empty() + line =~= line);
    let ended = open + line.push('\n');
    assert(ended.drop_last() =~= open + line);
    assert(ended.last() == '\n');
    let returned = line.push('\r');
    lemma_scan_line(open, returned);
    assert(Seq::<char>::empty() + returned =~= returned);
    let both = open + returned.push('\n');
    assert(both.drop_last() =~= open + returned);
    assert(both.last() == '\n');
    assert(without_return(returned) =~= line);
}

proof fn lemma_scan_line(text: Seq<char>, line: Seq<char>)
    requires
        forall|i: int| 0 <= i < line.len() ==> #[trigger] line[i] != '\n',
    ensures
        line_scan(text + line) == (line_scan(text).0, line_scan(text).1 + line),
    decreases line.len(),
{
    if line.len() == 0 {
        assert(text + line =~= text);
        assert(line_scan(text).1 + line =~= line_scan(text).1);
    } else {
        let shorter = line.drop_last();
        lemma_scan_line(text, shorter);
        assert((text + line).drop_last() =~= text + shorter);
        assert(line[line.len() - 1] != '\n');
        assert(line_scan(text).1 + line =~= (line_scan(text).1 + shorter).push(line.last()));
    }
}

/// Law: trimming takes away the white space at both ends and nothing else.
pub proof fn law_trimming_takes_white_space_from_both_ends(text: Seq<char>)
    ensures
        trimmed(text).len() > 0 ==> !white(trimmed(text)[0]) && !white(trimmed(text).last()),
        exists|from: int, to: int|
            #![trigger text.subrange(from, to)]
            {
                &&& 0 <= from <= to <= text.len()
                &&& trimmed(text) == text.subrange(from, to)
                &&& forall|i: int| 0 <= i < from || to <= i < text.len() ==> white(#[trigger] text[i])
            },
{
    lemma_trimmed_start(text);
    let rest = trimmed_start(text);
    let from = choose|from: int|
        0 <= from <= text.len() && rest == #[trigger] text.subrange(from, text.len() as int)
            && forall|i: int| 0 <= i < from ==> white(#[trigger] text[i]);
    lemma_trimmed_end(rest);
    let count = choose|count: int|
        0 <= count <= rest.len() && trimmed_end(rest) == #[trigger] rest.subrange(0, count)
            && forall|i: int| count <= i < rest.len() ==> white(#[trigger] rest[i]);
    let to = from + count;
    assert(trimmed(text) =~= text.subrange(from, to));
    assert forall|i: int| 0 <= i < from || to <= i < text.len() implies white(#[trigger] text[i])
        by {
        if to <= i {
            assert(rest[i - from] == text[i]);
        }
    }
    if trimmed(text).len() > 0 {
        assert(trimmed(text)[0] == rest[0]);
    }
}

proof fn lemma_trimmed_start(text: Seq<char>)
    ensures
        trimmed_start(text).len() > 0 ==> !white(trimmed_start(text)[0]),
        exists|from: int|
            0 <= from <= text.len() && trimmed_start(text) == #[trigger] text.subrange(
                from,
                text.len() as int,
            ) && forall|i: int| 0 <= i < from ==> white(#[trigger] text[i]),
    decreases text.len(),
{
    if text.len() > 0 && white(text[0]) {
        let rest = text.subrange(1, text.len() as int);
        lemma_trimmed_start(rest);
        let from = choose|from: int|
            0 <= from <= rest.len() && trimmed_start(rest) == #[trigger] rest.subrange(
                from,
                rest.len() as int,
            ) && forall|i: int| 0 <= i < from ==> white(#[trigger] rest[i]);
        assert(rest.subrange(from, rest.len() as int) =~= text.subrange(
            from + 1,
            text.len() as int,
        ));
        assert forall|i: int| 0 <= i < from + 1 implies white(#[trigger] text[i]) by {
            if i > 0 {
                assert(rest[i - 1] == text[i]);
            }
        }
    } else {
        assert(text.subrange(0, text.len() as int) =~= text);
    }
}

proof fn lemma_trimmed_end(text: Seq<char>)
    ensures
        trimmed_end(text).len() > 0 ==> !white(trimmed_end(text).last()),
        exists|count: int|
            0 <= count <= text.len() && trimmed_end(text) == #[trigger] text.subrange(0, count)
                && forall|i: int| count <= i < text.len() ==> white(#[trigger] text[i]),
    decreases text.len(),
{
    if text.len() > 0 && white(text.last()) {
        let rest = text.drop_last();
        lemma_trimmed_end(rest);
        let count = choose|count: int|
            0 <= count <= rest.len() && trimmed_end(rest) == #[trigger] rest.subrange(0, count)
                && forall|i: int| count <= i < rest.len() ==> white(#[trigger] rest[i]);
        assert(rest.subrange(0, count) =~= text.subrange(0, count));
        assert forall|i: int| count <= i < text.len() implies white(#[trigger] text[i]) by {
            if i < rest.len() {
                assert(rest[i] == text[i]);
            }
        }
    } else {
        assert(text.subrange(0, text.len() as int) =~= text);
    }
}

/// Law: a text is split at the first or at the last place of a pattern, which is
/// all that its two halves leave out.
pub proof fn law_halves_leave_out_the_pattern(text: Seq<char>, pattern: Seq<char>, at: int)
    ensures
        halves(text, pattern) matches Some((before, after)) ==> {
            &&& text == before + pattern + after
            &&& at < before.len() ==> !stands_at(text, pattern, at)
        },
        last_halves(text, pattern) matches Some((before, after)) ==> {
            &&& text == before + pattern + after
            &&& at > before.len() ==> !stands_at(text, pattern, at)
        },
        stands_at(text, pattern, at) ==> halves(text, pattern) is Some && last_halves(
            text,
            pattern,
        ) is Some && holds(text, pattern),
        holds(text, pattern) <==> exists|i: int| #[trigger] stands_at(text, pattern, i),
        stands_at(text, pattern, at) <==> 0 <= at && at + pattern.len() <= text.len() && text.subrange(
            at,
            at + pattern.len(),
        ) == pattern,
{
    law_position_is_first(text, pattern);
    if let Some(i) = position(text, pattern) {
        assert(stands_at(text, pattern, i));
        assert(text =~= text.take(i) + pattern + text.subrange(
            i + pattern.len(),
            text.len() as int,
        ));
        assert(at < i ==> !stands_at(text, pattern, at)) by {
            if 0 <= at < i {
                assert(!stands_at(text, pattern, at));
            }
        }
    }
    lemma_last_from(text, pattern, text.len() as int);
    if let Some(i) = last_from(text, pattern, text.len() as int) {
        assert(text =~= text.take(i) + pattern + text.subrange(
            i + pattern.len(),
            text.len() as int,
        ));
    }
}

proof fn lemma_last_from(text: Seq<char>, pattern: Seq<char>, from: int)
    ensures
        match last_from(text, pattern, from) {
            Some(at) => {
                &&& 0 <= at <= from
                &&& stands_at(text, pattern, at)
                &&& forall|i: int| at < i <= from ==> !#[trigger] stands_at(text, pattern, i)
            },
            None => forall|i: int| i <= from ==> !#[trigger] stands_at(text, pattern, i),
        },
    decreases from + 1,
{
    if from >= 0 && !stands_at(text, pattern, from) {
        lemma_last_from(text, pattern, from - 1);
    }
}

/// Law: a field is what follows its name in the first word that starts with it.
pub proof fn law_fields_are_taken_from_the_first_word(text: Seq<char>, prefix: Seq<char>, i: int)
    requires
        0 <= i < words(text).len(),
        has_prefix(words(text)[i], prefix),
        forall|j: int| 0 <= j < i ==> !has_prefix(#[trigger] words(text)[j], prefix),
    ensures
        field_of(text, prefix) is Some,
        prefix + field_of(text, prefix)->0 == words(text)[i],
{
    lemma_first_field(words(text), prefix, i);
    let word = words(text)[i];
    assert(prefix + word.subrange(prefix.len() as int, word.len() as int) =~= word);
}

/// Law: a field that no word starts with is missing.
pub proof fn law_missing_fields_are_none(text: Seq<char>, prefix: Seq<char>)
    requires
        forall|j: int| 0 <= j < words(text).len() ==> !has_prefix(#[trigger] words(text)[j], prefix),
    ensures
        field_of(text, prefix) is None,
{
    lemma_no_field(words(text), prefix);
}

proof fn lemma_first_field(list: Seq<Seq<char>>, prefix: Seq<char>, i: int)
    requires
        0 <= i < list.len(),
        has_prefix(list[i], prefix),
        forall|j: int| 0 <= j < i ==> !has_prefix(#[trigger] list[j], prefix),
    ensures
        first_field(list, prefix) == Some(
            list[i].subrange(prefix.len() as int, list[i].len() as int),
        ),
    decreases list.len(),
{
    let rest = list.drop_last();
    if i < rest.len() {
        lemma_first_field(rest, prefix, i);
    } else {
        lemma_no_field(rest, prefix);
    }
}

proof fn lemma_no_field(list: Seq<Seq<char>>, prefix: Seq<char>)
    requires
        forall|j: int| 0 <= j < list.len() ==> !has_prefix(#[trigger] list[j], prefix),
    ensures
        first_field(list, prefix) is None,
    decreases list.len(),
{
    if list.len() > 0 {
        assert(!has_prefix(list[list.len() - 1], prefix));
        lemma_no_field(list.drop_last(), prefix);
    }
}

/// Law: a cut text keeps the longest beginning that ends between two characters
/// and takes no more bytes than the limit.
pub proof fn law_cut_texts_end_between_characters(text: Seq<char>, limit: int)
    requires
        0 <= limit,
    ensures
        encode_utf8(text).len() <= limit ==> cut(text, limit) == text,
        encode_utf8(text).len() > limit ==> exists|end: int|
            {
                &&& 0 <= end <= limit
                &&& #[trigger] is_char_boundary(encode_utf8(text), end)
                &&& cut(text, limit) == decode_utf8(encode_utf8(text).take(end))
                &&& forall|i: int|
                    end < i <= limit ==> !#[trigger] is_char_boundary(encode_utf8(text), i)
            },
{
    broadcast use vstd::utf8::is_char_boundary_start_end_of_seq, vstd::utf8::encode_utf8_valid_utf8;

    let bytes = encode_utf8(text);
    if bytes.len() > limit {
        assert(is_char_boundary(bytes, 0));
        lemma_boundary_below(bytes, limit);
        let end = boundary_below(bytes, limit);
        assert(is_char_boundary(bytes, end));
    }
}

proof fn lemma_boundary_below(bytes: Seq<u8>, limit: int)
    requires
        0 <= limit,
        is_char_boundary(bytes, 0),
    ensures
        0 <= boundary_below(bytes, limit) <= limit,
        is_char_boundary(bytes, boundary_below(bytes, limit)),
        forall|i: int|
            boundary_below(bytes, limit) < i <= limit ==> !#[trigger] is_char_boundary(bytes, i),
    decreases limit,
{
    if limit > 0 && !is_char_boundary(bytes, limit) {
        lemma_boundary_below(bytes, limit - 1);
    }
}

} // verus!
