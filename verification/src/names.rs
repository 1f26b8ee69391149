//! File names, paths and shell words.
//!
//! A path is text, read as Unix reads it: components separated by `/`.
use vstd::prelude::*;
use vstd::utf8::*;

use crate::text::{
    characters, lemma_texts_push, optional, same_text, split, split_at_each, text_of, texts,
};

verus! {

/// The ASCII letters and digits.
pub open spec fn is_ascii_alphanumeric(byte: u8) -> bool {
    ||| 48 <= byte <= 57
    ||| 65 <= byte <= 90
    ||| 97 <= byte <= 122
}

/// Tests a byte for an ASCII letter or digit.
pub fn ascii_alphanumeric(byte: u8) -> (result: bool)
    ensures
        result == is_ascii_alphanumeric(byte),
{
    (48 <= byte && byte <= 57) || (65 <= byte && byte <= 90) || (97 <= byte && byte <= 122)
}

/// An upper-case hexadecimal digit.
pub open spec fn hex_char(digit: int) -> char {
    if digit < 10 {
        (digit + 48) as char
    } else {
        (digit + 55) as char
    }
}

fn hex_digit(digit: u8) -> (character: char)
    requires
        digit < 16,
    ensures
        character == hex_char(digit as int),
{
    if digit < 10 {
        (digit + 48) as char
    } else {
        (digit + 55) as char
    }
}

/// The bytes that a file name keeps as they are.
pub open spec fn is_kept(byte: u8) -> bool {
    is_ascii_alphanumeric(byte) || byte == 45 || byte == 46
}

/// What stands for one byte in a file name: the byte itself, or an underscore and two hexadecimal
/// digits.
pub open spec fn safe_byte(byte: u8) -> Seq<char> {
    if is_kept(byte) {
        seq![byte as char]
    } else {
        seq!['_', hex_char(byte as int / 16), hex_char(byte as int % 16)]
    }
}

/// What stands for a sequence of bytes in a file name.
pub open spec fn safe_bytes(bytes: Seq<u8>) -> Seq<char>
    decreases bytes.len(),
{
    if bytes.len() == 0 {
        seq![]
    } else {
        safe_byte(bytes[0]) + safe_bytes(bytes.drop_first())
    }
}

/// The part of a file name that stands for an identifier.
pub open spec fn safe(value: Seq<char>) -> Seq<char> {
    safe_bytes(encode_utf8(value))
}

/// Turns an identifier into text that can stand in a file name.
pub fn safe_name(value: &str) -> (name: String)
    ensures
        name@ == safe(value@),
{
    let bytes = value.as_bytes();
    let mut name = String::new();
    let mut index: usize = 0;
    assert(bytes@.skip(0) =~= bytes@);
    assert(name@ + safe_bytes(bytes@) =~= safe_bytes(bytes@));
    while index < bytes.len()
        invariant
            index <= bytes@.len(),
            name@ + safe_bytes(bytes@.skip(index as int)) == safe_bytes(bytes@),
        decreases bytes@.len() - index,
    {
        let byte: u8 = bytes[index];
        let ghost before = name@;
        let ghost rest = bytes@.skip(index as int);
        if ascii_alphanumeric(byte) || byte == 45 || byte == 46 {
            name.push(byte as char);
        } else {
            name.push('_');
            name.push(hex_digit(byte / 16));
            name.push(hex_digit(byte % 16));
        }
        index = index + 1;
        assert(name@ =~= before + safe_byte(byte));
        assert(rest.drop_first() =~= bytes@.skip(index as int));
        assert(name@ + safe_bytes(bytes@.skip(index as int)) =~= before + safe_bytes(rest));
    }
    assert(bytes@.skip(index as int) =~= seq![]);
    assert(name@ + safe_bytes(seq![]) =~= name@);
    name
}

/// The characters that occur in file names made from identifiers.
pub open spec fn is_name_char(character: char) -> bool {
    let code = character as u32;
    ||| 48 <= code <= 57
    ||| 65 <= code <= 90
    ||| 97 <= code <= 122
    ||| character == '-'
    ||| character == '.'
    ||| character == '_'
}

proof fn lemma_safe_bytes_chars(bytes: Seq<u8>)
    ensures
        forall|i: int|
            0 <= i < safe_bytes(bytes).len() ==> is_name_char(#[trigger] safe_bytes(bytes)[i]),
    decreases bytes.len(),
{
    if bytes.len() > 0 {
        lemma_safe_bytes_chars(bytes.drop_first());
        let head = safe_byte(bytes[0]);
        let tail = safe_bytes(bytes.drop_first());
        assert forall|i: int| 0 <= i < safe_bytes(bytes).len() implies is_name_char(
            #[trigger] safe_bytes(bytes)[i],
        ) by {
            if i < head.len() {
                assert(safe_bytes(bytes)[i] == head[i]);
            } else {
                assert(safe_bytes(bytes)[i] == tail[i - head.len()]);
            }
        }
    }
}

/// A file name made from an identifier holds letters, digits, `-`, `.` and `_` only. In particular
/// it holds no `/`, so a file of that name stands directly in its directory.
pub proof fn safe_name_cannot_leave_its_directory(value: Seq<char>)
    ensures
        forall|i: int| 0 <= i < safe(value).len() ==> is_name_char(#[trigger] safe(value)[i]),
        !safe(value).contains('/'),
{
    lemma_safe_bytes_chars(encode_utf8(value));
    if safe(value).contains('/') {
        let i = choose|i: int| 0 <= i < safe(value).len() && safe(value)[i] == '/';
        assert(is_name_char(safe(value)[i]));
    }
}

proof fn lemma_safe_bytes_injective(left: Seq<u8>, right: Seq<u8>)
    requires
        safe_bytes(left) == safe_bytes(right),
    ensures
        left == right,
    decreases left.len(),
{
    if left.len() == 0 {
        if right.len() > 0 {
            assert(safe_bytes(right).len() > 0);
        }
        assert(left =~= right);
    } else if right.len() == 0 {
        assert(safe_bytes(left).len() > 0);
    } else {
        let l = safe_byte(left[0]);
        let r = safe_byte(right[0]);
        let text = safe_bytes(left);
        assert(text == safe_bytes(right));
        assert(text[0] == l[0] && text[0] == r[0]);
        if l.len() == 3 && r.len() == 3 {
            assert(text[1] == l[1] && text[1] == r[1]);
            assert(text[2] == l[2] && text[2] == r[2]);
            assert(left[0] == right[0]);
        } else {
            assert(left[0] == right[0]);
        }
        assert(safe_bytes(left.drop_first()) =~= text.skip(l.len() as int));
        assert(safe_bytes(right.drop_first()) =~= text.skip(r.len() as int));
        lemma_safe_bytes_injective(left.drop_first(), right.drop_first());
        assert(left =~= seq![left[0]] + left.drop_first());
        assert(right =~= seq![right[0]] + right.drop_first());
    }
}

/// Two identifiers never share a file name.
pub proof fn safe_name_is_injective(left: Seq<char>, right: Seq<char>)
    requires
        safe(left) == safe(right),
    ensures
        left == right,
{
    lemma_safe_bytes_injective(encode_utf8(left), encode_utf8(right));
    encode_utf8_decode_utf8(left);
    encode_utf8_decode_utf8(right);
}

proof fn lemma_plain_bytes(bytes: Seq<u8>)
    requires
        forall|i: int|
            0 <= i < bytes.len() ==> is_ascii_alphanumeric(#[trigger] bytes[i]) || bytes[i] == 45,
    ensures
        !safe_bytes(bytes).contains('.'),
    decreases bytes.len(),
{
    if bytes.len() > 0 {
        lemma_plain_bytes(bytes.drop_first());
        let rest = safe_bytes(bytes.drop_first());
        assert(safe_byte(bytes[0]).len() == 1);
        if safe_bytes(bytes).contains('.') {
            let i = choose|i: int| 0 <= i < safe_bytes(bytes).len() && safe_bytes(bytes)[i] == '.';
            if i == 0 {
                assert(safe_byte(bytes[0])[0] == bytes[0] as char);
            } else {
                assert(rest[i - 1] == '.');
            }
        }
    }
}

/// The letters and digits of ASCII, and the hyphen.
pub open spec fn is_plain_char(character: char) -> bool {
    ||| 'a' <= character <= 'z'
    ||| 'A' <= character <= 'Z'
    ||| '0' <= character <= '9'
    ||| character == '-'
}

/// An ID of letters, digits and hyphens.
pub open spec fn is_plain_id(id: Seq<char>) -> bool {
    id.len() > 0 && forall|i: int| 0 <= i < id.len() ==> is_plain_char(#[trigger] id[i])
}

/// The file name of a plain ID holds no dot.
pub proof fn lemma_plain_name(value: Seq<char>)
    requires
        is_plain_id(value),
    ensures
        !safe(value).contains('.'),
{
    assert(is_ascii_chars(value));
    is_ascii_chars_encode_utf8(value);
    let bytes = encode_utf8(value);
    assert forall|i: int| 0 <= i < bytes.len() implies is_ascii_alphanumeric(#[trigger] bytes[i])
        || bytes[i] == 45 by {
        assert(is_plain_char(value[i]));
        assert(value[i] as u8 == bytes[i]);
    }
    lemma_plain_bytes(bytes);
}

/// A path below a directory. An absolute path replaces the directory.
pub open spec fn path_join(base: Seq<char>, leaf: Seq<char>) -> Seq<char> {
    if leaf.len() > 0 && leaf[0] == '/' {
        leaf
    } else if base.len() == 0 || base.last() == '/' {
        base + leaf
    } else {
        base + "/"@ + leaf
    }
}

/// Joins a directory and a path below it.
pub fn join_path(base: &str, leaf: &str) -> (path: String)
    ensures
        path@ == path_join(base@, leaf@),
{
    let base_length = base.unicode_len();
    if leaf.unicode_len() > 0 && leaf.get_char(0) == '/' {
        leaf.to_owned()
    } else {
        let mut path = base.to_owned();
        if base_length > 0 && base.get_char(base_length - 1) != '/' {
            path.append("/");
        }
        path.append(leaf);
        path
    }
}

/// A path without what names nothing at its end: separators, and `.` behind a separator. The root
/// directory keeps its separator.
pub open spec fn settled(path: Seq<char>) -> Seq<char>
    decreases path.len(),
{
    if path.len() > 1 && (path.last() == '/' || (path.last() == '.' && path[path.len() - 2]
        == '/')) {
        settled(path.drop_last())
    } else {
        path
    }
}

/// A path without the characters behind its last separator.
pub open spec fn without_name(path: Seq<char>) -> Seq<char>
    decreases path.len(),
{
    if path.len() > 0 && path.last() != '/' {
        without_name(path.drop_last())
    } else {
        path
    }
}

/// The last component of a path. The root directory and the empty path have none.
pub open spec fn path_name(path: Seq<char>) -> Seq<char> {
    settled(path).skip(without_name(settled(path)).len() as int)
}

/// The directory of a file: the path without its last component, if it has one.
pub open spec fn path_parent(path: Seq<char>) -> Option<Seq<char>> {
    if path_name(path).len() == 0 {
        None
    } else {
        Some(settled(without_name(settled(path))))
    }
}

fn settled_length(chars: &Vec<char>, from: usize) -> (end: usize)
    requires
        from <= chars@.len(),
    ensures
        end <= from,
        chars@.take(end as int) == settled(chars@.take(from as int)),
{
    let mut end: usize = from;
    while end > 1 && (chars[end - 1] == '/' || (chars[end - 1] == '.' && chars[end - 2] == '/'))
        invariant
            end <= from <= chars@.len(),
            settled(chars@.take(from as int)) == settled(chars@.take(end as int)),
        decreases end,
    {
        assert(chars@.take(end as int).drop_last() =~= chars@.take(end - 1));
        end = end - 1;
    }
    end
}

fn nameless_length(chars: &Vec<char>, from: usize) -> (end: usize)
    requires
        from <= chars@.len(),
    ensures
        end <= from,
        chars@.take(end as int) == without_name(chars@.take(from as int)),
{
    let mut end: usize = from;
    while end > 0 && chars[end - 1] != '/'
        invariant
            end <= from <= chars@.len(),
            without_name(chars@.take(from as int)) == without_name(chars@.take(end as int)),
        decreases end,
    {
        assert(chars@.take(end as int).drop_last() =~= chars@.take(end - 1));
        end = end - 1;
    }
    end
}

/// The last component of a path, which is empty where there is none.
pub fn file_name(path: &str) -> (name: String)
    ensures
        name@ == path_name(path@),
{
    let chars = characters(path);
    assert(chars@.take(chars@.len() as int) =~= chars@);
    let end: usize = settled_length(&chars, chars.len());
    let start: usize = nameless_length(&chars, end);
    assert(chars@.subrange(start as int, end as int) =~= path_name(path@));
    text_of(&chars, start, end)
}

/// The directory of a file.
pub fn parent_path(path: &str) -> (parent: Option<String>)
    ensures
        optional(parent) == path_parent(path@),
{
    let chars = characters(path);
    assert(chars@.take(chars@.len() as int) =~= chars@);
    let end: usize = settled_length(&chars, chars.len());
    let start: usize = nameless_length(&chars, end);
    assert(path_name(path@).len() == end - start);
    if start == end {
        return None;
    }
    let length: usize = settled_length(&chars, start);
    assert(chars@.subrange(0, length as int) =~= chars@.take(length as int));
    Some(text_of(&chars, 0, length))
}

/// The pieces of a split path that are components: not the empty ones, and `.` only at the start.
pub open spec fn kept_components(pieces: Seq<Seq<char>>) -> Seq<Seq<char>>
    decreases pieces.len(),
{
    if pieces.len() == 0 {
        seq![]
    } else {
        let rest = kept_components(pieces.drop_last());
        let piece = pieces.last();
        if piece.len() > 0 && (piece != "."@ || pieces.len() == 1) {
            rest.push(piece)
        } else {
            rest
        }
    }
}

/// The components of a path. That of the root directory is `/`.
pub open spec fn path_components(path: Seq<char>) -> Seq<Seq<char>> {
    if path.len() > 0 && path[0] == '/' {
        seq!["/"@] + kept_components(split(path, '/'))
    } else {
        kept_components(split(path, '/'))
    }
}

/// Splits a path into its components.
pub fn components_of(path: &str) -> (components: Vec<String>)
    ensures
        texts(components@) == path_components(path@),
{
    broadcast use lemma_texts_push;

    let pieces = split_at_each(path, '/');
    let ghost all = texts(pieces@);
    let mut components: Vec<String> = Vec::new();
    let ghost mut root: Seq<Seq<char>> = seq![];
    if path.unicode_len() > 0 && path.get_char(0) == '/' {
        components.push("/".to_owned());
        proof {
            root = seq!["/"@];
            assert(texts(components@) =~= root);
        }
    }
    let mut index: usize = 0;
    assert(texts(components@) =~= root + kept_components(all.take(0)));
    while index < pieces.len()
        invariant
            index <= pieces@.len(),
            all == texts(pieces@),
            texts(components@) == root + kept_components(all.take(index as int)),
        decreases pieces@.len() - index,
    {
        broadcast use lemma_texts_push;

        let piece = pieces[index].clone();
        assert(all.take(index as int + 1).drop_last() =~= all.take(index as int));
        assert(all.take(index as int + 1).last() == piece@);
        let ghost before = kept_components(all.take(index as int));
        if !piece.as_str().is_empty() && (!same_text(piece.as_str(), ".") || index == 0) {
            components.push(piece);
            assert(root + before.push(piece@) =~= (root + before).push(piece@));
        }
        index = index + 1;
    }
    assert(all.take(index as int) =~= all);
    assert(path_components(path@) =~= root + kept_components(all));
    components
}

/// Whether one list of components starts another.
pub open spec fn is_component_prefix(prefix: Seq<Seq<char>>, list: Seq<Seq<char>>) -> bool {
    prefix.len() <= list.len() && list.take(prefix.len() as int) == prefix
}

/// Whether a path lies at or below another one, compared by components.
pub fn path_starts_with(path: &str, root: &str) -> (result: bool)
    ensures
        result == is_component_prefix(path_components(root@), path_components(path@)),
{
    let inner = components_of(path);
    let outer = components_of(root);
    let ghost list = texts(inner@);
    let ghost prefix = texts(outer@);
    if outer.len() > inner.len() {
        return false;
    }
    let mut index: usize = 0;
    while index < outer.len()
        invariant
            index <= outer@.len() <= inner@.len(),
            list == texts(inner@),
            prefix == texts(outer@),
            prefix == path_components(root@),
            list == path_components(path@),
            forall|i: int| 0 <= i < index ==> list[i] == #[trigger] prefix[i],
        decreases outer@.len() - index,
    {
        if outer[index] != inner[index] {
            assert(list.take(prefix.len() as int)[index as int] != prefix[index as int]);
            return false;
        }
        index = index + 1;
    }
    assert(list.take(prefix.len() as int) =~= prefix);
    true
}

/// What stands for one character between single quotes.
pub open spec fn quoted_char(character: char) -> Seq<char> {
    if character == '\'' {
        "'\\''"@
    } else {
        seq![character]
    }
}

/// What stands for a text between single quotes.
pub open spec fn quoted_chars(value: Seq<char>) -> Seq<char>
    decreases value.len(),
{
    if value.len() == 0 {
        seq![]
    } else {
        quoted_chars(value.drop_last()) + quoted_char(value.last())
    }
}

/// A text as one word of a POSIX shell.
pub open spec fn shell_quoted(value: Seq<char>) -> Seq<char> {
    "'"@ + quoted_chars(value) + "'"@
}

/// Quotes a text for a POSIX shell.
pub fn shell_quote(value: &str) -> (word: String)
    ensures
        word@ == shell_quoted(value@),
{
    let mut word = "'".to_owned();
    assert(word@ =~= "'"@ + quoted_chars(value@.take(0)));
    for character in it: value.chars()
        invariant
            it.seq() == value@,
            word@ == "'"@ + quoted_chars(value@.take(it.index())),
    {
        let ghost before = word@;
        if character == '\'' {
            word.append("'\\''");
        } else {
            word.push(character);
        }
        assert(value@.take(it.index() + 1).drop_last() =~= value@.take(it.index()));
        assert(word@ =~= before + quoted_char(character));
        assert(word@ =~= "'"@ + quoted_chars(value@.take(it.index() + 1)));
    }
    assert(value@.take(value@.len() as int) =~= value@);
    word.append("'");
    word
}

} // verus!
