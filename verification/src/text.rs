//! Text primitives: decimal numbers, white space, lines, words and quoting.
//!
//! Every function is stated over the characters of its argument (`Seq<char>`).
use vstd::prelude::*;

verus! {

/// `String::push` appends one character.
pub assume_specification[ String::push ](text: &mut String, character: char)
    ensures
        final(text)@ == old(text)@.push(character),
;

/// The character of a decimal digit.
pub open spec fn digit_char(digit: int) -> char {
    (digit + 48) as char
}

/// The decimal representation of a natural number, without leading zeros.
pub open spec fn decimal(number: nat) -> Seq<char>
    decreases number,
{
    if number < 10 {
        seq![digit_char(number as int)]
    } else {
        decimal(number / 10).push(digit_char((number % 10) as int))
    }
}

/// The decimal representation of an integer, with a leading minus sign if negative.
pub open spec fn signed_decimal(number: int) -> Seq<char> {
    if number < 0 {
        "-"@ + decimal((-number) as nat)
    } else {
        decimal(number as nat)
    }
}

fn digit_of(digit: u64) -> (character: char)
    requires
        digit < 10,
    ensures
        character == digit_char(digit as int),
{
    let code: u8 = digit as u8 + 48;
    code as char
}

/// Appends a number in decimal.
pub fn push_decimal(out: &mut String, number: u64)
    ensures
        final(out)@ == old(out)@ + decimal(number as nat),
    decreases number,
{
    if number >= 10 {
        push_decimal(out, number / 10);
    }
    out.push(digit_of(number % 10));
    assert(out@ =~= old(out)@ + decimal(number as nat));
}

/// The characters of a text, one by one.
pub fn characters(text: &str) -> (chars: Vec<char>)
    ensures
        chars@ == text@,
{
    let mut chars: Vec<char> = Vec::new();
    for character in it: text.chars()
        invariant
            it.seq() == text@,
            chars@ == text@.take(it.index()),
    {
        chars.push(character);
        assert(chars@ =~= text@.take(it.index() + 1));
    }
    assert(text@.take(text@.len() as int) =~= text@);
    chars
}

/// A text made of some characters.
pub fn text_of(chars: &Vec<char>, from: usize, to: usize) -> (text: String)
    requires
        from <= to <= chars@.len(),
    ensures
        text@ == chars@.subrange(from as int, to as int),
{
    let mut text = String::new();
    let mut index: usize = from;
    while index < to
        invariant
            from <= index <= to <= chars@.len(),
            text@ == chars@.subrange(from as int, index as int),
        decreases to - index,
    {
        text.push(chars[index]);
        index = index + 1;
        assert(text@ =~= chars@.subrange(from as int, index as int));
    }
    text
}

/// Whether two texts hold the same characters.
pub fn same_text(left: &str, right: &str) -> (same: bool)
    ensures
        same == (left@ == right@),
{
    left.to_owned() == right.to_owned()
}

/// Appends a signed number in decimal.
pub fn push_signed(out: &mut String, number: i32)
    ensures
        final(out)@ == old(out)@ + signed_decimal(number as int),
{
    if number < 0 {
        out.append("-");
        push_decimal(out, (-(number as i64)) as u64);
        assert(out@ =~= old(out)@ + signed_decimal(number as int));
    } else {
        push_decimal(out, number as u64);
    }
}

/// A number as decimal text.
pub fn decimal_text(number: u64) -> (text: String)
    ensures
        text@ == decimal(number as nat),
{
    let mut text = String::new();
    push_decimal(&mut text, number);
    assert(text@ =~= decimal(number as nat));
    text
}

/// The concatenation of two texts.
pub fn joined(left: &str, right: &str) -> (text: String)
    ensures
        text@ == left@ + right@,
{
    let mut text = left.to_owned();
    text.append(right);
    text
}

/// A value that may be absent, by its view.
pub open spec fn optional<T: View>(value: Option<T>) -> Option<T::V> {
    match value {
        Some(value) => Some(value@),
        None => None,
    }
}

/// A result, its error by its characters.
pub open spec fn outcome<T>(result: Result<T, String>) -> Result<T, Seq<char>> {
    match result {
        Ok(value) => Ok(value),
        Err(error) => Err(error@),
    }
}

/// A result, its value by its view and its error by its characters.
pub open spec fn outcome_view<T: View>(result: Result<T, String>) -> Result<T::V, Seq<char>> {
    match result {
        Ok(value) => Ok(value@),
        Err(error) => Err(error@),
    }
}

/// A list of texts, by their characters.
pub open spec fn texts(list: Seq<String>) -> Seq<Seq<char>> {
    list.map_values(|text: String| text@)
}

pub broadcast proof fn lemma_texts_push(list: Seq<String>, text: String)
    ensures
        #[trigger] texts(list.push(text)) == texts(list).push(text@),
{
    assert(texts(list.push(text)) =~= texts(list).push(text@));
}

/// Copies a text that may be absent.
pub fn clone_optional(text: &Option<String>) -> (copy: Option<String>)
    ensures
        optional(copy) == optional(*text),
{
    match text {
        Some(text) => Some(text.clone()),
        None => None,
    }
}

/// Copies a list of texts.
pub fn clone_texts(list: &Vec<String>) -> (copy: Vec<String>)
    ensures
        texts(copy@) == texts(list@),
{
    let mut copy: Vec<String> = Vec::new();
    let mut index: usize = 0;
    while index < list.len()
        invariant
            index <= list@.len(),
            texts(copy@) == texts(list@.take(index as int)),
        decreases list@.len() - index,
    {
        broadcast use lemma_texts_push;
        copy.push(list[index].clone());
        assert(list@.take(index as int + 1) =~= list@.take(index as int).push(list@[index as int]));
        index = index + 1;
    }
    assert(list@.take(list@.len() as int) =~= list@);
    copy
}

/// The characters with the Unicode property `White_Space`.
pub open spec fn is_white(character: char) -> bool {
    let code = character as u32;
    ||| 0x9 <= code <= 0xd
    ||| code == 0x20
    ||| code == 0x85
    ||| code == 0xa0
    ||| code == 0x1680
    ||| 0x2000 <= code <= 0x200a
    ||| code == 0x2028
    ||| code == 0x2029
    ||| code == 0x202f
    ||| code == 0x205f
    ||| code == 0x3000
}

/// Tests a character for white space.
pub fn white(character: char) -> (result: bool)
    ensures
        result == is_white(character),
{
    let code: u32 = character as u32;
    (0x9 <= code && code <= 0xd) || code == 0x20 || code == 0x85 || code == 0xa0 || code == 0x1680
        || (0x2000 <= code && code <= 0x200a) || code == 0x2028 || code == 0x2029 || code == 0x202f
        || code == 0x205f || code == 0x3000
}

/// A text without its leading white space.
pub open spec fn trim_start(text: Seq<char>) -> Seq<char>
    decreases text.len(),
{
    if text.len() > 0 && is_white(text[0]) {
        trim_start(text.drop_first())
    } else {
        text
    }
}

/// A text without its trailing white space.
pub open spec fn trim_end(text: Seq<char>) -> Seq<char>
    decreases text.len(),
{
    if text.len() > 0 && is_white(text.last()) {
        trim_end(text.drop_last())
    } else {
        text
    }
}

/// A text without its leading and trailing white space.
pub open spec fn trim(text: Seq<char>) -> Seq<char> {
    trim_end(trim_start(text))
}

/// The index of the first character that is not white space, at or after `from`.
fn skip_white(chars: &Vec<char>, from: usize) -> (index: usize)
    requires
        from <= chars@.len(),
    ensures
        from <= index <= chars@.len(),
        trim_start(chars@.skip(from as int)) == chars@.skip(index as int),
        forall|i: int| from <= i < index ==> is_white(#[trigger] chars@[i]),
        index < chars@.len() ==> !is_white(chars@[index as int]),
{
    let mut index: usize = from;
    while index < chars.len() && white(chars[index])
        invariant
            from <= index <= chars@.len(),
            trim_start(chars@.skip(from as int)) == trim_start(chars@.skip(index as int)),
            forall|i: int| from <= i < index ==> is_white(#[trigger] chars@[i]),
        decreases chars@.len() - index,
    {
        assert(chars@.skip(index as int).drop_first() =~= chars@.skip(index as int + 1));
        index = index + 1;
    }
    index
}

/// The index after the last character at or after `from` that is not white space.
fn end_without_white(chars: &Vec<char>, from: usize) -> (end: usize)
    requires
        from <= chars@.len(),
    ensures
        from <= end <= chars@.len(),
        trim_end(chars@.skip(from as int)) == chars@.subrange(from as int, end as int),
{
    let mut end: usize = chars.len();
    assert(chars@.skip(from as int) =~= chars@.subrange(from as int, end as int));
    while end > from && white(chars[end - 1])
        invariant
            from <= end <= chars@.len(),
            trim_end(chars@.skip(from as int)) == trim_end(
                chars@.subrange(from as int, end as int),
            ),
        decreases end,
    {
        assert(chars@.subrange(from as int, end as int).drop_last() =~= chars@.subrange(
            from as int,
            end - 1,
        ));
        end = end - 1;
    }
    end
}

/// Removes leading and trailing white space.
pub fn trimmed(text: &str) -> (result: String)
    ensures
        result@ == trim(text@),
{
    let chars = characters(text);
    assert(chars@.skip(0) =~= chars@);
    let from = skip_white(&chars, 0);
    let to = end_without_white(&chars, from);
    text_of(&chars, from, to)
}

/// Removes trailing white space.
pub fn trimmed_end(text: &str) -> (result: String)
    ensures
        result@ == trim_end(text@),
{
    let chars = characters(text);
    assert(chars@.skip(0) =~= chars@);
    let to = end_without_white(&chars, 0);
    text_of(&chars, 0, to)
}

/// Whether a text holds nothing but white space.
pub fn blank(text: &str) -> (result: bool)
    ensures
        result == (trim(text@).len() == 0),
{
    trimmed(text).as_str().is_empty()
}

/// The index of the first occurrence of a character, or the length if there is none.
pub open spec fn first_index(text: Seq<char>, character: char) -> int
    decreases text.len(),
{
    if text.len() == 0 || text[0] == character {
        0
    } else {
        1 + first_index(text.drop_first(), character)
    }
}

pub proof fn lemma_first_index(text: Seq<char>, character: char)
    ensures
        0 <= first_index(text, character) <= text.len(),
    decreases text.len(),
{
    if text.len() > 0 && text[0] != character {
        lemma_first_index(text.drop_first(), character);
    }
}

/// The index of the first occurrence of a character at or after `from`.
fn find_from(chars: &Vec<char>, from: usize, character: char) -> (index: usize)
    requires
        from <= chars@.len(),
    ensures
        from <= index <= chars@.len(),
        index - from == first_index(chars@.skip(from as int), character),
{
    let mut index: usize = from;
    while index < chars.len() && chars[index] != character
        invariant
            from <= index <= chars@.len(),
            first_index(chars@.skip(from as int), character) == (index - from) + first_index(
                chars@.skip(index as int),
                character,
            ),
        decreases chars@.len() - index,
    {
        assert(chars@.skip(index as int).drop_first() =~= chars@.skip(index as int + 1));
        index = index + 1;
    }
    index
}

/// What stands before the first separator and what stands after it are told apart.
pub proof fn lemma_first_separator(
    left: Seq<char>,
    after_left: Seq<char>,
    right: Seq<char>,
    after_right: Seq<char>,
    separator: char,
)
    requires
        left + seq![separator] + after_left == right + seq![separator] + after_right,
        !left.contains(separator),
        !right.contains(separator),
    ensures
        left == right,
        after_left == after_right,
{
    let whole = left + seq![separator] + after_left;
    assert(whole[left.len() as int] == separator);
    assert(whole[right.len() as int] == separator);
    if left.len() < right.len() {
        assert(right[left.len() as int] == separator);
    }
    if right.len() < left.len() {
        assert(left[right.len() as int] == separator);
    }
    assert(left =~= whole.take(left.len() as int));
    assert(right =~= whole.take(left.len() as int));
    assert(after_left =~= whole.skip(left.len() as int + 1));
    assert(after_right =~= whole.skip(left.len() as int + 1));
}

/// The pieces of a text between the occurrences of a separator; there is always one at least.
pub open spec fn split(text: Seq<char>, separator: char) -> Seq<Seq<char>>
    decreases text.len(),
{
    let at = first_index(text, separator);
    if 0 <= at < text.len() {
        seq![text.take(at)] + split(text.skip(at + 1), separator)
    } else {
        seq![text]
    }
}

/// Splits a text at each occurrence of a separator.
pub fn split_at_each(text: &str, separator: char) -> (pieces: Vec<String>)
    ensures
        texts(pieces@) == split(text@, separator),
{
    let chars = characters(text);
    let mut pieces: Vec<String> = Vec::new();
    let mut from: usize = 0;
    assert(chars@.skip(0) =~= chars@);
    assert(texts(pieces@) + split(chars@, separator) =~= split(chars@, separator));
    loop
        invariant_except_break
            from <= chars@.len(),
            chars@ == text@,
            texts(pieces@) + split(chars@.skip(from as int), separator) == split(
                text@,
                separator,
            ),
        ensures
            texts(pieces@) == split(text@, separator),
        decreases chars@.len() - from,
    {
        broadcast use lemma_texts_push;

        let at = find_from(&chars, from, separator);
        let ghost rest = chars@.skip(from as int);
        let ghost before = texts(pieces@);
        pieces.push(text_of(&chars, from, at));
        assert(chars@.subrange(from as int, at as int) =~= rest.take(at - from));
        if at == chars.len() {
            assert(rest.take(at - from) =~= rest);
            assert(before.push(rest) =~= before + split(rest, separator));
            break;
        }
        assert(rest.skip(at - from + 1) =~= chars@.skip(at + 1));
        assert(before.push(rest.take(at - from)) + split(chars@.skip(at + 1), separator)
            =~= before + split(rest, separator));
        from = at + 1;
    }
    pieces
}

/// A line without the carriage return that precedes its line feed.
pub open spec fn without_return(line: Seq<char>) -> Seq<char> {
    if line.len() > 0 && line.last() == '\r' {
        line.drop_last()
    } else {
        line
    }
}

/// The lines of a text. A line ends with a line feed, or with a carriage return and a line feed;
/// the end of the last line is optional.
pub open spec fn lines(text: Seq<char>) -> Seq<Seq<char>>
    decreases text.len(),
{
    let at = first_index(text, '\n');
    if text.len() == 0 {
        seq![]
    } else if 0 <= at < text.len() {
        seq![without_return(text.take(at))] + lines(text.skip(at + 1))
    } else {
        seq![text]
    }
}

/// Splits a text into its lines.
pub fn lines_of(text: &str) -> (result: Vec<String>)
    ensures
        texts(result@) == lines(text@),
{
    let chars = characters(text);
    let mut result: Vec<String> = Vec::new();
    let mut from: usize = 0;
    assert(chars@.skip(0) =~= chars@);
    assert(texts(result@) + lines(chars@) =~= lines(chars@));
    while from < chars.len()
        invariant
            from <= chars@.len(),
            chars@ == text@,
            texts(result@) + lines(chars@.skip(from as int)) == lines(text@),
        decreases chars@.len() - from,
    {
        broadcast use lemma_texts_push;

        let at = find_from(&chars, from, '\n');
        let ghost rest = chars@.skip(from as int);
        let ghost before = texts(result@);
        if at == chars.len() {
            result.push(text_of(&chars, from, at));
            assert(chars@.subrange(from as int, at as int) =~= rest);
            assert(texts(result@) =~= before + lines(rest));
            from = at;
            assert(chars@.skip(from as int) =~= seq![]);
            assert(texts(result@) + lines(seq![]) =~= texts(result@));
        } else {
            let end = if at > from && chars[at - 1] == '\r' {
                at - 1
            } else {
                at
            };
            result.push(text_of(&chars, from, end));
            assert(chars@.subrange(from as int, end as int) =~= without_return(
                rest.take(at - from),
            ));
            assert(rest.skip(at - from + 1) =~= chars@.skip(at + 1));
            assert(texts(result@) =~= before.push(without_return(rest.take(at - from))));
            assert(texts(result@) + lines(chars@.skip(at + 1)) =~= before + lines(rest));
            from = at + 1;
        }
    }
    assert(chars@.skip(from as int) =~= seq![]);
    assert(texts(result@) + lines(seq![]) =~= texts(result@));
    result
}

/// The number of leading characters that are not white space.
pub open spec fn word_length(text: Seq<char>) -> int
    decreases text.len(),
{
    if text.len() == 0 || is_white(text[0]) {
        0
    } else {
        1 + word_length(text.drop_first())
    }
}

pub proof fn lemma_word_length(text: Seq<char>)
    ensures
        0 <= word_length(text) <= text.len(),
        text.len() > 0 && !is_white(text[0]) ==> word_length(text) > 0,
    decreases text.len(),
{
    if text.len() > 0 && !is_white(text[0]) {
        lemma_word_length(text.drop_first());
    }
}

pub proof fn lemma_trim_start_length(text: Seq<char>)
    ensures
        trim_start(text).len() <= text.len(),
        trim_start(text).len() > 0 ==> !is_white(trim_start(text)[0]),
    decreases text.len(),
{
    if text.len() > 0 && is_white(text[0]) {
        lemma_trim_start_length(text.drop_first());
    }
}

/// The words of a text: the maximal pieces that hold no white space.
pub open spec fn words(text: Seq<char>) -> Seq<Seq<char>>
    decreases text.len(),
{
    let rest = trim_start(text);
    if rest.len() == 0 {
        seq![]
    } else {
        let length = word_length(rest);
        proof {
            lemma_trim_start_length(text);
            lemma_word_length(rest);
        }
        seq![rest.take(length)] + words(rest.skip(length))
    }
}

/// Splits a text into its words.
pub fn words_of(text: &str) -> (result: Vec<String>)
    ensures
        texts(result@) == words(text@),
{
    let chars = characters(text);
    let mut result: Vec<String> = Vec::new();
    let mut from: usize = 0;
    assert(chars@.skip(0) =~= chars@);
    assert(texts(result@) + words(chars@) =~= words(chars@));
    loop
        invariant_except_break
            from <= chars@.len(),
            chars@ == text@,
            texts(result@) + words(chars@.skip(from as int)) == words(text@),
        ensures
            texts(result@) == words(text@),
        decreases chars@.len() - from,
    {
        broadcast use lemma_texts_push;

        let ghost here = chars@.skip(from as int);
        let start = skip_white(&chars, from);
        let ghost rest = chars@.skip(start as int);
        let ghost before = texts(result@);
        if start == chars.len() {
            assert(rest.len() == 0);
            assert(before + words(here) =~= before);
            break;
        }
        let mut end: usize = start;
        while end < chars.len() && !white(chars[end])
            invariant
                start <= end <= chars@.len(),
                rest == chars@.skip(start as int),
                word_length(rest) == (end - start) + word_length(chars@.skip(end as int)),
            decreases chars@.len() - end,
        {
            assert(chars@.skip(end as int).drop_first() =~= chars@.skip(end as int + 1));
            end = end + 1;
        }
        result.push(text_of(&chars, start, end));
        assert(chars@.subrange(start as int, end as int) =~= rest.take(end - start));
        assert(rest.skip(end - start) =~= chars@.skip(end as int));
        assert(texts(result@) =~= before.push(rest.take(end - start)));
        assert(texts(result@) + words(chars@.skip(end as int)) =~= before + words(here));
        assert(end > start);
        from = end;
    }
    result
}

/// Whether one text stands at a place of another.
pub open spec fn stands_at(text: Seq<char>, part: Seq<char>, place: int) -> bool {
    0 <= place && place + part.len() <= text.len() && text.subrange(place, place + part.len())
        == part
}

/// Whether one text holds another.
pub open spec fn holds_text(text: Seq<char>, part: Seq<char>) -> bool {
    exists|place: int| stands_at(text, part, place)
}

/// Tells whether one text holds another.
pub fn contains_text(text: &str, part: &str) -> (result: bool)
    ensures
        result == holds_text(text@, part@),
{
    let chars = characters(text);
    let wanted = characters(part);
    if wanted.len() == 0 {
        assert(text@.subrange(0, 0) =~= part@);
        assert(stands_at(text@, part@, 0));
        return true;
    }
    let total: usize = chars.len();
    if wanted.len() > total {
        return false;
    }
    let last: usize = total - wanted.len();
    let mut place: usize = 0;
    while place <= last
        invariant
            chars@ == text@,
            wanted@ == part@,
            wanted@.len() > 0,
            total == chars@.len(),
            last + wanted@.len() == total,
            place <= last + 1,
            forall|i: int| 0 <= i < place ==> !stands_at(text@, part@, i),
        decreases last + 1 - place,
    {
        let mut matched: usize = 0;
        while matched < wanted.len() && chars[place + matched] == wanted[matched]
            invariant
                place <= last,
                total == chars@.len(),
                last + wanted@.len() == total,
                matched <= wanted@.len(),
                forall|i: int| 0 <= i < matched ==> chars@[place + i] == wanted@[i],
            decreases wanted@.len() - matched,
        {
            matched = matched + 1;
        }
        if matched == wanted.len() {
            proof {
                assert(chars@.subrange(place as int, place + wanted@.len()) =~= wanted@);
                assert(stands_at(text@, part@, place as int));
            }
            return true;
        }
        proof {
            if stands_at(text@, part@, place as int) {
                assert(text@.subrange(place as int, place + part@.len())[matched as int]
                    == chars@[place + matched]);
            }
        }
        place = place + 1;
    }
    false
}

/// A text in quotation marks, with escapes.
pub uninterp spec fn debug_quoted(text: Seq<char>) -> Seq<char>;

/// The `Debug` form of a `str`: the text in quotation marks. Which characters are escaped is not
/// stated.
#[verifier::external_body]
pub(crate) fn debug_quote(text: &str) -> (quoted: String)
    ensures
        quoted@ == debug_quoted(text@),
{
    format!("{:?}", text)
}

/// Some texts in quotation marks, separated by commas.
pub open spec fn debug_items(list: Seq<Seq<char>>) -> Seq<char>
    decreases list.len(),
{
    if list.len() == 0 {
        seq![]
    } else if list.len() == 1 {
        debug_quoted(list[0])
    } else {
        debug_items(list.drop_last()) + ", "@ + debug_quoted(list.last())
    }
}

/// A list of texts in square brackets.
pub open spec fn debug_list(list: Seq<Seq<char>>) -> Seq<char> {
    "["@ + debug_items(list) + "]"@
}

/// A list of texts in square brackets.
pub fn debug_text(list: &Vec<String>) -> (text: String)
    ensures
        text@ == debug_list(texts(list@)),
{
    let mut items = String::new();
    let ghost views = texts(list@);
    let mut index: usize = 0;
    assert(views.take(0) =~= seq![]);
    while index < list.len()
        invariant
            index <= list@.len(),
            views == texts(list@),
            items@ == debug_items(views.take(index as int)),
        decreases list@.len() - index,
    {
        proof {
            let now = views.take(index + 1);
            assert(now.drop_last() =~= views.take(index as int));
            assert(now.last() == list@[index as int]@);
        }
        if index > 0 {
            items.append(", ");
        }
        items.append(debug_quote(list[index].as_str()).as_str());
        assert(items@ =~= debug_items(views.take(index + 1)));
        index = index + 1;
    }
    assert(views.take(index as int) =~= views);
    let mut text = joined("[", items.as_str());
    text.append("]");
    text
}

} // verus!
