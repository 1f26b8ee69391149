//! What holds of every text that is cut into lines and words, trimmed, or read and written as a
//! number.
use vstd::prelude::*;

use crate::number::{digits_after, NumberError};
use crate::text::{
    debug_items, debug_list, debug_quoted, decimal, first_index, holds_text, is_white,
    lemma_first_index, lines, signed_decimal, split, stands_at, trim, trim_end, trim_start,
    without_return, word_length, words,
};

verus! {

/// Whether a text holds nothing but white space.
pub open spec fn is_blank(text: Seq<char>) -> bool {
    forall|i: int| 0 <= i < text.len() ==> is_white(#[trigger] text[i])
}

/// Whether a text is one word: not empty, and without white space.
pub open spec fn is_word(text: Seq<char>) -> bool {
    text.len() > 0 && forall|i: int| 0 <= i < text.len() ==> !is_white(#[trigger] text[i])
}

/// Of the characters of a keyboard, the space, the tabs and the ends of lines and pages are white,
/// and no visible one is.
pub proof fn white_characters(character: char)
    requires
        character as u32 <= 0x7e,
    ensures
        is_white(character) <==> character == ' ' || character == '\t' || character == '\n'
            || character == '\r' || character as u32 == 0xb || character as u32 == 0xc,
{
}

proof fn lemma_index_of_first(before: Seq<char>, character: char, rest: Seq<char>)
    requires
        !before.contains(character),
    ensures
        first_index(before + seq![character] + rest, character) == before.len(),
    decreases before.len(),
{
    let text = before + seq![character] + rest;
    if before.len() > 0 {
        assert(before.contains(before[0]));
        assert(text[0] == before[0]);
        assert(text.drop_first() =~= before.drop_first() + seq![character] + rest);
        assert forall|i: int| 0 <= i < before.drop_first().len() implies before.drop_first()[i]
            != character by {
            assert(before.contains(before[i + 1]));
        }
        lemma_index_of_first(before.drop_first(), character, rest);
    } else {
        assert(text[0] == character);
    }
}

proof fn lemma_no_index(text: Seq<char>, character: char)
    requires
        !text.contains(character),
    ensures
        first_index(text, character) == text.len(),
    decreases text.len(),
{
    if text.len() > 0 {
        assert(text.contains(text[0]));
        assert forall|i: int| 0 <= i < text.drop_first().len() implies text.drop_first()[i]
            != character by {
            assert(text.contains(text[i + 1]));
        }
        lemma_no_index(text.drop_first(), character);
    }
}

/// A text is cut at the end of each line: the first line is what stands before the first end of a
/// line, without a carriage return at its end, and the other lines are those of the rest. What
/// stands after the last end of a line is a line too, unless it is empty.
pub proof fn lines_are_cut_at_their_ends(line: Seq<char>, rest: Seq<char>)
    requires
        !line.contains('\n'),
    ensures
        lines(line + seq!['\n'] + rest) == seq![
            if line.len() > 0 && line.last() == '\r' {
                line.drop_last()
            } else {
                line
            },
        ] + lines(rest),
        line.len() > 0 ==> lines(line) == seq![line],
        lines(seq![]) == Seq::<Seq<char>>::empty(),
{
    let text = line + seq!['\n'] + rest;
    lemma_index_of_first(line, '\n', rest);
    lemma_no_index(line, '\n');
    assert(text.take(line.len() as int) =~= line);
    assert(text.skip(line.len() as int + 1) =~= rest);
}

/// Lines that end are lines whatever comes after them: the lines of two texts, the first of which
/// ends with a line, are the lines of the first and those of the second.
pub proof fn ended_lines_stay(before: Seq<char>, after: Seq<char>)
    requires
        before.len() == 0 || before.last() == '\n',
    ensures
        lines(before + after) == lines(before) + lines(after),
    decreases before.len(),
{
    if before.len() == 0 {
        assert(before + after =~= after);
        assert(lines(before) + lines(after) =~= lines(after));
    } else {
        let at = first_index(before, '\n');
        lemma_first_index(before, '\n');
        lemma_line_start(before);
        let line = before.take(at);
        let rest = before.skip(at + 1);
        assert(before =~= line + seq!['\n'] + rest);
        assert(before + after =~= line + seq!['\n'] + (rest + after));
        lines_are_cut_at_their_ends(line, rest);
        lines_are_cut_at_their_ends(line, rest + after);
        if rest.len() > 0 {
            assert(rest.last() == before.last());
        }
        ended_lines_stay(rest, after);
        assert(lines(before) + lines(after) =~= seq![without_return(line)] + (lines(rest) + lines(
            after,
        )));
        assert(lines(before + after) =~= seq![without_return(line)] + lines(rest + after));
    }
}

/// Whether a text has a row between two places: it begins where a line begins and ends where a line
/// ends.
pub open spec fn is_row(text: Seq<char>, start: int, end: int) -> bool {
    &&& 0 <= start <= end <= text.len()
    &&& start == 0 || text[start - 1] == '\n'
    &&& end == text.len() || text[end] == '\n'
    &&& forall|i: int| start <= i < end ==> #[trigger] text[i] != '\n'
}

/// Every row that is not empty is a line, up to a carriage return at its end.
pub proof fn rows_are_lines(text: Seq<char>, start: int, end: int)
    requires
        is_row(text, start, end),
        start < end,
    ensures
        exists|i: int|
            0 <= i < lines(text).len() && (#[trigger] lines(text)[i] == text.subrange(start, end)
                || lines(text)[i] == without_return(text.subrange(start, end))),
{
    let before = text.take(start);
    let row = text.subrange(start, end);
    let rest = text.skip(end);
    assert(text =~= before + (row + rest));
    ended_lines_stay(before, row + rest);
    assert forall|i: int| 0 <= i < row.len() implies row[i] != '\n' by {
        assert(row[i] == text[start + i]);
    }
    let place = lines(before).len() as int;
    if rest.len() == 0 {
        assert(row + rest =~= row);
        lines_are_cut_at_their_ends(row, rest);
        assert(lines(text)[place] == row);
    } else {
        let more = rest.skip(1);
        assert(row + rest =~= row + seq!['\n'] + more);
        lines_are_cut_at_their_ends(row, more);
        assert(lines(text)[place] == without_return(row));
    }
}

/// Every line is a row, up to a carriage return at its end.
pub proof fn lines_are_rows(text: Seq<char>, i: int) -> (row: (int, int))
    requires
        0 <= i < lines(text).len(),
    ensures
        is_row(text, row.0, row.1),
        lines(text)[i] == text.subrange(row.0, row.1) || lines(text)[i] == without_return(
            text.subrange(row.0, row.1),
        ),
    decreases text.len(),
{
    let at = first_index(text, '\n');
    lemma_first_index(text, '\n');
    if text.contains('\n') {
        lemma_line_start(text);
        let line = text.take(at);
        let rest = text.skip(at + 1);
        assert forall|j: int| 0 <= j < at implies #[trigger] text[j] != '\n' by {
            assert(line[j] == text[j]);
        }
        if i == 0 {
            assert(text.subrange(0, at) =~= line);
            (0, at)
        } else {
            let (start, end) = lines_are_rows(rest, i - 1);
            assert(lines(text)[i] == lines(rest)[i - 1]);
            assert(text.subrange(start + at + 1, end + at + 1) =~= rest.subrange(start, end));
            assert forall|j: int| start + at + 1 <= j < end + at + 1 implies #[trigger] text[j]
                != '\n' by {
                assert(rest[j - at - 1] == text[j]);
            }
            if start > 0 {
                assert(rest[start - 1] == text[start + at]);
            }
            if end < rest.len() {
                assert(rest[end] == text[end + at + 1]);
            }
            (start + at + 1, end + at + 1)
        }
    } else {
        lemma_no_index(text, '\n');
        assert(text.subrange(0, text.len() as int) =~= text);
        assert forall|j: int| 0 <= j < text.len() implies #[trigger] text[j] != '\n' by {
            assert(text.contains(text[j]));
        }
        (0, text.len() as int)
    }
}

/// The first end of a line in a text that holds one.
proof fn lemma_line_start(text: Seq<char>)
    requires
        text.contains('\n') || (text.len() > 0 && text.last() == '\n'),
    ensures
        0 <= first_index(text, '\n') < text.len(),
        text[first_index(text, '\n')] == '\n',
        !text.take(first_index(text, '\n')).contains('\n'),
    decreases text.len(),
{
    if text.len() > 0 && text.last() == '\n' {
        assert(text.contains(text[text.len() - 1]));
    }
    if text[0] == '\n' {
        assert(text.take(0) =~= seq![]);
    } else {
        let rest = text.drop_first();
        let i = choose|i: int| 0 <= i < text.len() && text[i] == '\n';
        assert(rest[i - 1] == '\n');
        lemma_line_start(rest);
        let at = first_index(rest, '\n');
        assert(first_index(text, '\n') == at + 1);
        let start = text.take(at + 1);
        assert forall|j: int| 0 <= j < start.len() implies #[trigger] start[j] != '\n' by {
            if j > 0 {
                assert(rest.take(at)[j - 1] == text[j]);
                assert(!rest.take(at).contains('\n'));
            }
        }
    }
}

/// A text is cut at each separator, and joining the parts gives it back: the first part is what
/// stands before the first separator.
pub proof fn parts_are_cut_at_separators(part: Seq<char>, separator: char, rest: Seq<char>)
    requires
        !part.contains(separator),
    ensures
        split(part, separator) == seq![part],
        split(part + seq![separator] + rest, separator) == seq![part] + split(rest, separator),
{
    let text = part + seq![separator] + rest;
    lemma_index_of_first(part, separator, rest);
    lemma_no_index(part, separator);
    assert(text.take(part.len() as int) =~= part);
    assert(text.skip(part.len() as int + 1) =~= rest);
}

proof fn lemma_blank_start(blank: Seq<char>, rest: Seq<char>)
    requires
        is_blank(blank),
    ensures
        trim_start(blank + rest) == trim_start(rest),
    decreases blank.len(),
{
    if blank.len() > 0 {
        assert((blank + rest)[0] == blank[0]);
        assert((blank + rest).drop_first() =~= blank.drop_first() + rest);
        assert forall|i: int| 0 <= i < blank.drop_first().len() implies is_white(
            #[trigger] blank.drop_first()[i],
        ) by {
            assert(is_white(blank[i + 1]));
        }
        lemma_blank_start(blank.drop_first(), rest);
    } else {
        assert(blank + rest =~= rest);
    }
}

proof fn lemma_blank_end(text: Seq<char>, blank: Seq<char>)
    requires
        is_blank(blank),
    ensures
        trim_end(text + blank) == trim_end(text),
    decreases blank.len(),
{
    if blank.len() > 0 {
        assert((text + blank).last() == blank.last());
        assert(is_white(blank[blank.len() - 1]));
        assert((text + blank).drop_last() =~= text + blank.drop_last());
        assert forall|i: int| 0 <= i < blank.drop_last().len() implies is_white(
            #[trigger] blank.drop_last()[i],
        ) by {
            assert(is_white(blank[i]));
        }
        lemma_blank_end(text, blank.drop_last());
    } else {
        assert(text + blank =~= text);
    }
}

/// White space around a text goes, and nothing else does.
pub proof fn trimming_takes_the_white_ends(before: Seq<char>, text: Seq<char>, after: Seq<char>)
    requires
        is_blank(before),
        is_blank(after),
        text.len() > 0 ==> !is_white(text[0]) && !is_white(text.last()),
    ensures
        trim(before + text + after) == text,
        trim_end(text + after) == text,
{
    lemma_blank_end(text, after);
    assert(before + text + after =~= before + (text + after));
    lemma_blank_start(before, text + after);
    if text.len() == 0 {
        assert(text + after =~= after + seq![]);
        lemma_blank_start(after, seq![]);
        assert(trim_start(Seq::<char>::empty()) == Seq::<char>::empty());
        assert(text =~= seq![]);
    } else {
        assert((text + after)[0] == text[0]);
    }
}

proof fn lemma_word_start(word: Seq<char>, rest: Seq<char>)
    requires
        is_word(word) || word.len() == 0,
        rest.len() == 0 || is_white(rest[0]),
    ensures
        word_length(word + rest) == word.len(),
    decreases word.len(),
{
    if word.len() > 0 {
        assert((word + rest)[0] == word[0]);
        assert((word + rest).drop_first() =~= word.drop_first() + rest);
        assert forall|i: int| 0 <= i < word.drop_first().len() implies !is_white(
            #[trigger] word.drop_first()[i],
        ) by {
            assert(!is_white(word[i + 1]));
        }
        lemma_word_start(word.drop_first(), rest);
    } else {
        assert(word + rest =~= rest);
    }
}

/// The words of a line are what stands between white space: blanks alone hold none, and a word that
/// is followed by white space or by nothing comes before the words of the rest.
pub proof fn words_are_cut_at_white_space(blank: Seq<char>, word: Seq<char>, rest: Seq<char>)
    requires
        is_blank(blank),
        is_word(word),
        rest.len() == 0 || is_white(rest[0]),
    ensures
        words(blank) == Seq::<Seq<char>>::empty(),
        words(blank + word + rest) == seq![word] + words(rest),
{
    lemma_blank_start(blank, seq![]);
    assert(blank + seq![] =~= blank);
    assert(trim_start(Seq::<char>::empty()) == Seq::<char>::empty());
    let text = blank + word + rest;
    assert(text =~= blank + (word + rest));
    lemma_blank_start(blank, word + rest);
    assert((word + rest)[0] == word[0]);
    assert(trim_start(text) == word + rest);
    lemma_word_start(word, rest);
    assert((word + rest).take(word.len() as int) =~= word);
    assert((word + rest).skip(word.len() as int) =~= rest);
}

/// The words of a line whose last word follows white space end with that word.
pub proof fn the_last_word_stands_at_the_end(before: Seq<char>, word: Seq<char>, blank: Seq<char>)
    requires
        is_word(word),
        is_blank(blank),
        before.len() == 0 || is_white(before.last()),
    ensures
        words(before + word + blank) == words(before) + seq![word],
    decreases before.len(),
{
    let whole = before + word + blank;
    if is_blank(before) {
        if blank.len() > 0 {
            assert(is_white(blank[0]));
        }
        words_are_cut_at_white_space(before, word, blank);
        words_are_cut_at_white_space(blank, word, blank);
        assert(seq![word] + words(blank) =~= words(before) + seq![word]);
    } else {
        let trimmed = trim_start(before);
        lemma_start_is_blank(before);
        let start = before.take(before.len() - trimmed.len());
        assert(trimmed.last() == before.last()) by {
            assert(trimmed == before.skip(before.len() - trimmed.len()));
        }
        let length = word_length(trimmed);
        lemma_word_is_word(trimmed);
        let first = trimmed.take(length);
        let rest = trimmed.skip(length);
        assert(rest.len() > 0) by {
            if length == trimmed.len() {
                assert(first[length - 1] == trimmed.last());
                assert(!is_white(first[length - 1]));
            }
        }
        assert(rest[0] == trimmed[length]);
        assert(rest.last() == before.last());
        assert(before =~= start + first + rest);
        assert(whole =~= start + first + (rest + word + blank));
        words_are_cut_at_white_space(start, first, rest);
        words_are_cut_at_white_space(start, first, rest + word + blank);
        the_last_word_stands_at_the_end(rest, word, blank);
        assert(words(whole) =~= words(before) + seq![word]);
    }
}

/// White space at the end of a line adds no word.
pub proof fn trailing_blanks_hold_no_word(text: Seq<char>, blank: Seq<char>)
    requires
        is_blank(blank),
    ensures
        words(text + blank) == words(text),
    decreases text.len(),
{
    if is_blank(text) {
        assert forall|i: int| 0 <= i < (text + blank).len() implies is_white(
            #[trigger] (text + blank)[i],
        ) by {
            if i < text.len() {
                assert(is_white(text[i]));
            } else {
                assert(is_white(blank[i - text.len()]));
            }
        }
        lemma_blank_start(text, seq![]);
        assert(text + seq![] =~= text);
        lemma_blank_start(text + blank, seq![]);
        assert((text + blank) + seq![] =~= text + blank);
        assert(trim_start(Seq::<char>::empty()) == Seq::<char>::empty());
    } else {
        let trimmed = trim_start(text);
        lemma_start_is_blank(text);
        let start = text.take(text.len() - trimmed.len());
        lemma_word_is_word(trimmed);
        let length = word_length(trimmed);
        let first = trimmed.take(length);
        let rest = trimmed.skip(length);
        if rest.len() > 0 {
            assert(rest[0] == trimmed[length]);
        }
        if rest.len() == 0 && blank.len() > 0 {
            assert(is_white(blank[0]));
        }
        assert(text =~= start + first + rest);
        assert(text + blank =~= start + first + (rest + blank));
        words_are_cut_at_white_space(start, first, rest);
        words_are_cut_at_white_space(start, first, rest + blank);
        trailing_blanks_hold_no_word(rest, blank);
    }
}

proof fn lemma_start_is_blank(text: Seq<char>)
    ensures
        trim_start(text).len() <= text.len(),
        trim_start(text) == text.skip(text.len() - trim_start(text).len()),
        is_blank(text.take(text.len() - trim_start(text).len())),
        trim_start(text).len() > 0 ==> !is_white(trim_start(text)[0]),
        trim_start(text).len() == 0 ==> is_blank(text),
    decreases text.len(),
{
    if text.len() > 0 && is_white(text[0]) {
        let rest = text.drop_first();
        lemma_start_is_blank(rest);
        let trimmed = trim_start(rest);
        assert(text.skip(text.len() - trimmed.len()) =~= rest.skip(rest.len() - trimmed.len()));
        let start = text.take(text.len() - trimmed.len());
        assert forall|i: int| 0 <= i < start.len() implies is_white(#[trigger] start[i]) by {
            if i > 0 {
                assert(rest.take(rest.len() - trimmed.len())[i - 1] == start[i]);
            }
        }
        if trimmed.len() == 0 {
            assert(start =~= text);
        }
    } else {
        assert(text.skip(0) =~= text);
        assert(text.take(0) =~= seq![]);
    }
}

proof fn lemma_word_is_word(text: Seq<char>)
    requires
        text.len() > 0,
        !is_white(text[0]),
    ensures
        0 < word_length(text) <= text.len(),
        is_word(text.take(word_length(text))),
        word_length(text) < text.len() ==> is_white(text[word_length(text)]),
    decreases text.len(),
{
    let rest = text.drop_first();
    if rest.len() > 0 && !is_white(rest[0]) {
        lemma_word_is_word(rest);
        let length = word_length(rest);
        assert(word_length(text) == length + 1);
        let word = text.take(length + 1);
        assert forall|i: int| 0 <= i < word.len() implies !is_white(#[trigger] word[i]) by {
            if i > 0 {
                assert(rest.take(length)[i - 1] == text[i]);
            }
        }
    } else {
        assert(word_length(rest) == 0);
    }
}

/// The value of decimal digits.
pub open spec fn value_of(digits: Seq<char>) -> nat
    decreases digits.len(),
{
    if digits.len() == 0 {
        0
    } else {
        value_of(digits.drop_last()) * 10 + (digits.last() as nat - '0' as nat) as nat
    }
}

/// Whether a text consists of decimal digits.
pub open spec fn all_digits(text: Seq<char>) -> bool {
    forall|i: int| 0 <= i < text.len() ==> '0' <= #[trigger] text[i] <= '9'
}

/// A number is written in decimal digits that have its value, without leading zeros; a negative one
/// follows a minus sign.
pub proof fn numbers_are_written_in_decimal(value: nat)
    ensures
        all_digits(decimal(value)),
        decimal(value).len() > 0,
        value_of(decimal(value)) == value,
        decimal(value)[0] == '0' ==> value == 0 && decimal(value).len() == 1,
        signed_decimal(value as int) == decimal(value),
        value > 0 ==> signed_decimal(-value) == seq!['-'] + decimal(value),
    decreases value,
{
    reveal_strlit("-");
    assert("-"@ =~= seq!['-']);
    reveal_with_fuel(value_of, 2);
    if value < 10 {
        assert(decimal(value).drop_last() =~= seq![]);
    } else {
        numbers_are_written_in_decimal(value / 10);
        assert(decimal(value).drop_last() =~= decimal(value / 10));
    }
}

proof fn lemma_value_of_more(digits: Seq<char>, last: char)
    ensures
        value_of(digits.push(last)) == value_of(digits) * 10 + (last as nat - '0' as nat) as nat,
{
    assert(digits.push(last).drop_last() =~= digits);
}

proof fn lemma_digits_after(read: Seq<char>, digits: Seq<char>)
    requires
        all_digits(read),
        value_of(read) <= u64::MAX,
    ensures
        digits_after(value_of(read), digits) is Ok <==> all_digits(digits) && value_of(
            read + digits,
        ) <= u64::MAX,
        digits_after(value_of(read), digits) matches Ok(value) ==> value == value_of(read + digits),
    decreases digits.len(),
{
    if digits.len() == 0 {
        assert(read + digits =~= read);
    } else if '0' <= digits[0] <= '9' {
        let more = read.push(digits[0]);
        let rest = digits.skip(1);
        assert(read + digits =~= more + rest);
        lemma_value_of_more(read, digits[0]);
        if value_of(more) <= u64::MAX {
            lemma_digits_after(more, rest);
            if all_digits(digits) {
                assert forall|i: int| 0 <= i < rest.len() implies '0' <= #[trigger] rest[i] <= '9' by {
                    assert(rest[i] == digits[i + 1]);
                }
            }
            if all_digits(rest) {
                assert forall|i: int| 0 <= i < digits.len() implies '0' <= #[trigger] digits[i]
                    <= '9' by {
                    if i > 0 {
                        assert(digits[i] == rest[i - 1]);
                    }
                }
            }
        } else {
            values_grow_with_more_digits(more, rest);
        }
    }
}

/// More digits never make a value smaller.
pub proof fn values_grow_with_more_digits(digits: Seq<char>, more: Seq<char>)
    ensures
        value_of(digits + more) >= value_of(digits),
    decreases more.len(),
{
    if more.len() > 0 {
        values_grow_with_more_digits(digits, more.drop_last());
        assert((digits + more).drop_last() =~= digits + more.drop_last());
    } else {
        assert(digits + more =~= digits);
    }
}

/// A text is read as a number if and only if it consists of decimal digits, at least one, after a
/// plus sign or none, and their value fits; the number is that value.
pub proof fn numbers_are_read_by_their_digits(text: Seq<char>)
    ensures
        ({
            let digits = if text.len() > 0 && text[0] == '+' {
                text.skip(1)
            } else {
                text
            };
            let read = crate::number::number(text);
            &&& read is Ok <==> digits.len() > 0 && all_digits(digits) && value_of(digits)
                <= u64::MAX
            &&& read matches Ok(value) ==> value == value_of(digits)
            &&& text.len() == 0 <==> read == Err::<u64, NumberError>(NumberError::Empty)
        }),
{
    reveal_with_fuel(value_of, 1);
    let digits = if text.len() > 0 && text[0] == '+' {
        text.skip(1)
    } else {
        text
    };
    assert(value_of(seq![]) == 0);
    lemma_digits_after(seq![], digits);
    assert(Seq::<char>::empty() + digits =~= digits);
    lemma_never_empty(0, digits);
    if text.len() == 1 && text[0] == '+' {
        assert(digits_after(0, text) == Err::<u64, NumberError>(NumberError::InvalidDigit));
    }
}

proof fn lemma_never_empty(value: nat, digits: Seq<char>)
    ensures
        digits_after(value, digits) != Err::<u64, NumberError>(NumberError::Empty),
    decreases digits.len(),
{
    if digits.len() > 0 {
        let next = value * 10 + (digits[0] as nat - 48) as nat;
        lemma_never_empty(next, digits.skip(1));
    }
}

/// What was written as a number is read as the same number, also with white space around it.
pub proof fn a_written_number_is_read_back(before: Seq<char>, value: u64, after: Seq<char>)
    requires
        is_blank(before),
        is_blank(after),
    ensures
        crate::number::number(trim(before + decimal(value as nat) + after)) == Ok::<
            u64,
            NumberError,
        >(value),
{
    let digits = decimal(value as nat);
    numbers_are_written_in_decimal(value as nat);
    assert('0' <= digits[0] <= '9');
    assert('0' <= digits[digits.len() - 1] <= '9');
    trimming_takes_the_white_ends(before, digits, after);
    numbers_are_read_by_their_digits(digits);
}

/// A number that is too large is told apart from a text that is none.
pub proof fn unreadable_numbers_are_told_apart(text: Seq<char>)
    requires
        text.len() > 0,
        text[0] != '+',
    ensures
        all_digits(text) && value_of(text) > u64::MAX ==> crate::number::number(text) == Err::<
            u64,
            NumberError,
        >(NumberError::TooLarge),
        !('0' <= text[0] <= '9') ==> crate::number::number(text) == Err::<u64, NumberError>(
            NumberError::InvalidDigit,
        ),
        NumberError::Empty.text() == "cannot parse integer from empty string"@,
        NumberError::InvalidDigit.text() == "invalid digit found in string"@,
        NumberError::TooLarge.text() == "number too large to fit in target type"@,
{
    if all_digits(text) && value_of(text) > u64::MAX {
        numbers_are_read_by_their_digits(text);
        lemma_digits_never_invalid(0, text);
        lemma_never_empty(0, text);
        match crate::number::number(text) {
            Ok(_) => {},
            Err(NumberError::Empty) => {},
            Err(NumberError::InvalidDigit) => {},
            Err(NumberError::TooLarge) => {},
        }
    }
}

proof fn lemma_digits_never_invalid(value: nat, digits: Seq<char>)
    requires
        all_digits(digits),
    ensures
        digits_after(value, digits) != Err::<u64, NumberError>(NumberError::InvalidDigit),
    decreases digits.len(),
{
    if digits.len() > 0 {
        let rest = digits.skip(1);
        assert('0' <= digits[0] <= '9');
        assert forall|i: int| 0 <= i < rest.len() implies '0' <= #[trigger] rest[i] <= '9' by {
            assert(rest[i] == digits[i + 1]);
        }
        lemma_digits_never_invalid(value * 10 + (digits[0] as nat - 48) as nat, rest);
    }
}

/// A text holds another wherever that one stands in it.
pub proof fn a_text_holds_its_parts(text: Seq<char>, part: Seq<char>)
    ensures
        holds_text(text, part) <==> exists|before: Seq<char>, after: Seq<char>|
            text == #[trigger] (before + part + after),
{
    if holds_text(text, part) {
        let place = choose|place: int| stands_at(text, part, place);
        let before = text.take(place);
        let after = text.skip(place + part.len());
        assert(text =~= before + part + after);
    }
    if exists|before: Seq<char>, after: Seq<char>| text == #[trigger] (before + part + after) {
        let (before, after) = choose|before: Seq<char>, after: Seq<char>|
            text == #[trigger] (before + part + after);
        let place = before.len() as int;
        assert(text.subrange(place, place + part.len()) =~= part);
        assert(stands_at(text, part, place));
    }
}

/// A list is shown in brackets, each of its texts in quotation marks and with a comma and a space
/// between two of them.
pub proof fn lists_are_shown_in_brackets(list: Seq<Seq<char>>, text: Seq<char>)
    ensures
        debug_list(seq![]) == "[]"@,
        debug_list(seq![text]) == "["@ + debug_quoted(text) + "]"@,
        list.len() > 0 ==> debug_list(list.push(text)) == debug_list(list).drop_last() + ", "@
            + debug_quoted(text) + "]"@,
{
    reveal_strlit("[");
    reveal_strlit("]");
    reveal_strlit("[]");
    reveal_strlit(", ");
    assert(debug_list(seq![]) =~= "[]"@);
    assert(list.push(text).drop_last() =~= list);
    assert(debug_list(list).drop_last() =~= "["@ + debug_items(list));
    if list.len() > 0 {
        assert(debug_list(list.push(text)) =~= debug_list(list).drop_last() + ", "@
            + debug_quoted(text) + "]"@);
    }
}

/// One more part after a separator is one more part of the text.
pub proof fn a_last_part_stands_at_the_end(text: Seq<char>, separator: char, part: Seq<char>)
    requires
        !part.contains(separator),
    ensures
        split(text + seq![separator] + part, separator) == split(text, separator).push(part),
    decreases text.len(),
{
    let whole = text + seq![separator] + part;
    if text.contains(separator) {
        let at = first_index(text, separator);
        lemma_first_index(text, separator);
        lemma_separator_start(text, separator);
        let first = text.take(at);
        let rest = text.skip(at + 1);
        assert(text =~= first + seq![separator] + rest);
        assert(whole =~= first + seq![separator] + (rest + seq![separator] + part));
        parts_are_cut_at_separators(first, separator, rest);
        parts_are_cut_at_separators(first, separator, rest + seq![separator] + part);
        a_last_part_stands_at_the_end(rest, separator, part);
        assert(split(whole, separator) =~= split(text, separator).push(part));
    } else {
        parts_are_cut_at_separators(text, separator, part);
        parts_are_cut_at_separators(part, separator, part);
        assert(seq![text] + seq![part] =~= seq![text].push(part));
    }
}

proof fn lemma_separator_start(text: Seq<char>, separator: char)
    requires
        text.contains(separator),
    ensures
        0 <= first_index(text, separator) < text.len(),
        text[first_index(text, separator)] == separator,
        !text.take(first_index(text, separator)).contains(separator),
    decreases text.len(),
{
    if text[0] == separator {
        assert(text.take(0) =~= seq![]);
    } else {
        let rest = text.drop_first();
        let i = choose|i: int| 0 <= i < text.len() && text[i] == separator;
        assert(rest[i - 1] == separator);
        lemma_separator_start(rest, separator);
        let at = first_index(rest, separator);
        assert(first_index(text, separator) == at + 1);
        let start = text.take(at + 1);
        assert forall|j: int| 0 <= j < start.len() implies #[trigger] start[j] != separator by {
            if j > 0 {
                assert(rest.take(at)[j - 1] == text[j]);
                assert(!rest.take(at).contains(separator));
            }
        }
    }
}

} // verus!
