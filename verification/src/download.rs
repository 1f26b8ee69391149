//! Checks on what was downloaded for an update.
use vstd::prelude::*;

use crate::message::{last_bytes, lossy_tail, lossy_text, read_lossy};
use crate::names::{file_name, join_path, parent_path, path_join, path_name, path_parent};
use crate::text::{
    characters, decimal, joined, lines, lines_of, optional, outcome, outcome_view, push_decimal,
    same_text, split, split_at_each, text_of, texts, trim, trimmed, words, words_of,
};
use crate::update::{version_text, ReleaseVersion, VersionView, STDERR_LIMIT_BYTES};

verus! {

/// What a message quotes of the error output of a command.
pub fn bounded_stderr(stderr: &Vec<u8>) -> (text: String)
    ensures
        text@ == trim(lossy_text(last_bytes(stderr@, STDERR_LIMIT_BYTES as nat))),
{
    trimmed(lossy_tail(stderr, STDERR_LIMIT_BYTES).as_str())
}

/// Whether a character is a hexadecimal digit.
pub open spec fn is_hex(character: char) -> bool {
    ('0' <= character && character <= '9') || ('a' <= character && character <= 'f') || ('A'
        <= character && character <= 'F')
}

/// Whether a text can be a SHA-256 checksum.
pub open spec fn is_checksum(text: Seq<char>) -> bool {
    text.len() == 64 && forall|i: int| 0 <= i < text.len() ==> is_hex(#[trigger] text[i])
}

fn looks_like_checksum(text: &str) -> (result: bool)
    ensures
        result == is_checksum(text@),
{
    let chars = characters(text);
    let mut hex = true;
    let mut index: usize = 0;
    while index < chars.len()
        invariant
            chars@ == text@,
            index <= chars@.len(),
            hex == (forall|i: int| 0 <= i < index ==> is_hex(#[trigger] text@[i])),
        decreases chars@.len() - index,
    {
        let character = chars[index];
        let digit = '0' <= character && character <= '9';
        let lower = 'a' <= character && character <= 'f';
        let upper = 'A' <= character && character <= 'F';
        if !(digit || lower || upper) {
            hex = false;
        }
        index = index + 1;
    }
    chars.len() == 64 && hex
}

/// A text without the stars before it.
pub open spec fn without_stars(text: Seq<char>) -> Seq<char>
    decreases text.len(),
{
    if text.len() > 0 && text[0] == '*' {
        without_stars(text.skip(1))
    } else {
        text
    }
}

fn strip_stars(text: &str) -> (rest: String)
    ensures
        rest@ == without_stars(text@),
{
    let chars = characters(text);
    let mut start: usize = 0;
    assert(chars@.skip(0) =~= text@);
    while start < chars.len() && chars[start] == '*'
        invariant
            chars@ == text@,
            start <= chars@.len(),
            without_stars(text@) == without_stars(text@.skip(start as int)),
        decreases chars@.len() - start,
    {
        assert(text@.skip(start as int).skip(1) =~= text@.skip(start + 1));
        start = start + 1;
    }
    assert(text@.skip(start as int) =~= chars@.subrange(start as int, chars@.len() as int));
    text_of(&chars, start, chars.len())
}

/// The checksum that a line of a manifest gives for a file, if it is about that file.
pub open spec fn line_checksum(line: Seq<char>, name: Seq<char>) -> Option<Seq<char>> {
    let fields = words(line);
    if fields.len() >= 2 && without_stars(fields[1]) == name {
        Some(fields[0])
    } else {
        None
    }
}

/// The checksum in the first of some lines that is about a file.
pub open spec fn first_checksum(manifest: Seq<Seq<char>>, name: Seq<char>) -> Option<Seq<char>>
    decreases manifest.len(),
{
    if manifest.len() == 0 {
        None
    } else {
        match line_checksum(manifest[0], name) {
            Some(checksum) => Some(checksum),
            None => first_checksum(manifest.skip(1), name),
        }
    }
}

/// The checksum that a manifest gives for a file.
pub open spec fn manifest_checksum(manifest: Seq<char>, name: Seq<char>) -> Result<
    Seq<char>,
    Seq<char>,
> {
    match first_checksum(lines(manifest), name) {
        None => Err("checksum manifest has no entry for `"@ + name + "`"@),
        Some(checksum) => if is_checksum(checksum) {
            Ok(checksum)
        } else {
            Err("invalid SHA-256 checksum for `"@ + name + "`"@)
        },
    }
}

fn checksum_in_line(line: &str, name: &str) -> (checksum: Option<String>)
    ensures
        optional(checksum) == line_checksum(line@, name@),
{
    let fields = words_of(line);
    assert(texts(fields@).len() == fields@.len());
    if fields.len() >= 2 {
        let named = strip_stars(fields[1].as_str());
        if same_text(named.as_str(), name) {
            return Some(fields[0].clone());
        }
    }
    None
}

/// The checksum that a manifest gives for a file.
pub fn expected_checksum(manifest: &str, asset_name: &str) -> (result: Result<String, String>)
    ensures
        outcome_view(result) == manifest_checksum(manifest@, asset_name@),
{
    let entries = lines_of(manifest);
    let ghost views = lines(manifest@);
    let mut found: Option<String> = None;
    let mut index: usize = 0;
    assert(views.skip(0) =~= views);
    while index < entries.len() && found.is_none()
        invariant
            views == texts(entries@),
            index <= entries@.len(),
            first_checksum(views, asset_name@) == match found {
                Some(checksum) => Some(checksum@),
                None => first_checksum(views.skip(index as int), asset_name@),
            },
        decreases entries@.len() - index,
    {
        proof {
            assert(views.skip(index as int)[0] == entries@[index as int]@);
            assert(views.skip(index as int).skip(1) =~= views.skip(index + 1));
        }
        found = checksum_in_line(entries[index].as_str(), asset_name);
        index = index + 1;
    }
    match found {
        Some(checksum) => {
            if looks_like_checksum(checksum.as_str()) {
                Ok(checksum)
            } else {
                let mut error = joined("invalid SHA-256 checksum for `", asset_name);
                error.append("`");
                Err(error)
            }
        },
        None => {
            let mut error = joined("checksum manifest has no entry for `", asset_name);
            error.append("`");
            Err(error)
        },
    }
}

/// An ASCII letter in lower case; other characters as they are.
pub open spec fn lower(character: char) -> char {
    if 'A' <= character && character <= 'Z' {
        (character as u32 + 32) as char
    } else {
        character
    }
}

/// Whether two texts are the same but for the case of ASCII letters.
pub open spec fn same_but_case(left: Seq<char>, right: Seq<char>) -> bool {
    left.len() == right.len() && forall|i: int|
        0 <= i < left.len() ==> lower(#[trigger] left[i]) == lower(right[i])
}

fn lower_case(character: char) -> (result: char)
    ensures
        result == lower(character),
{
    if 'A' <= character && character <= 'Z' {
        let code: u8 = character as u8 + 32;
        code as char
    } else {
        character
    }
}

fn equal_but_case(left: &str, right: &str) -> (result: bool)
    ensures
        result == same_but_case(left@, right@),
{
    let left_chars = characters(left);
    let right_chars = characters(right);
    if left_chars.len() != right_chars.len() {
        return false;
    }
    let mut index: usize = 0;
    while index < left_chars.len()
        invariant
            left_chars@ == left@,
            right_chars@ == right@,
            left@.len() == right@.len(),
            index <= left@.len(),
            forall|i: int| 0 <= i < index ==> lower(#[trigger] left@[i]) == lower(right@[i]),
        decreases left@.len() - index,
    {
        if lower_case(left_chars[index]) != lower_case(right_chars[index]) {
            assert(lower(left@[index as int]) != lower(right@[index as int]));
            return false;
        }
        index = index + 1;
    }
    true
}

/// What is wrong with a download whose checksum was taken, if anything.
pub open spec fn checksum_problem(
    expected: Seq<char>,
    actual: Seq<char>,
    name: Seq<char>,
) -> Option<Seq<char>> {
    if same_but_case(expected, actual) {
        None
    } else {
        Some(
            "SHA-256 mismatch for `"@ + name + "`: expected "@ + expected + ", got "@ + actual,
        )
    }
}

/// Compares the checksum of a download with the expected one.
pub fn verify_checksum(expected: &str, actual: &str, asset_name: &str) -> (result: Result<
    (),
    String,
>)
    ensures
        outcome(result) == match checksum_problem(expected@, actual@, asset_name@) {
            Some(problem) => Err::<(), Seq<char>>(problem),
            None => Ok(()),
        },
{
    if equal_but_case(expected, actual) {
        return Ok(());
    }
    let mut error = joined("SHA-256 mismatch for `", asset_name);
    error.append("`: expected ");
    error.append(expected);
    error.append(", got ");
    error.append(actual);
    Err(error)
}

/// What became of a command.
#[derive(Debug)]
pub enum CommandOutcome {
    /// There is no such command.
    NotFound(String),
    /// The command could not be run.
    Failed(String),
    /// The command ended. The status is what is said of it.
    Ended { success: bool, status: String, stdout: Vec<u8>, stderr: Vec<u8> },
}

/// The view of a [`CommandOutcome`].
pub enum CommandOutcomeView {
    NotFound(Seq<char>),
    Failed(Seq<char>),
    Ended { success: bool, status: Seq<char>, stdout: Seq<u8>, stderr: Seq<u8> },
}

impl View for CommandOutcome {
    type V = CommandOutcomeView;

    open spec fn view(&self) -> CommandOutcomeView {
        match *self {
            CommandOutcome::NotFound(error) => CommandOutcomeView::NotFound(error@),
            CommandOutcome::Failed(error) => CommandOutcomeView::Failed(error@),
            CommandOutcome::Ended { success, status, stdout, stderr } => CommandOutcomeView::Ended {
                success,
                status: status@,
                stdout: stdout@,
                stderr: stderr@,
            },
        }
    }
}

/// What a checksum tool said: a checksum, nothing where the tool does not exist, or an error.
pub open spec fn tool_checksum(command: Seq<char>, tool: CommandOutcomeView) -> Result<
    Option<Seq<char>>,
    Seq<char>,
> {
    match tool {
        CommandOutcomeView::NotFound(_) => Ok(None),
        CommandOutcomeView::Failed(error) => Err("run "@ + command + ": "@ + error),
        CommandOutcomeView::Ended { success, status, stdout, stderr } => if !success {
            Err(
                command + " failed: "@ + trim(
                    lossy_text(last_bytes(stderr, STDERR_LIMIT_BYTES as nat)),
                ),
            )
        } else {
            let fields = words(lossy_text(stdout));
            if fields.len() > 0 && is_checksum(fields[0]) {
                Ok(Some(fields[0]))
            } else {
                Err("could not parse "@ + command + " output"@)
            }
        },
    }
}

/// What a checksum tool said: a checksum, nothing where the tool does not exist, or an error.
pub fn read_checksum(command: &str, tool: &CommandOutcome) -> (result: Result<
    Option<String>,
    String,
>)
    ensures
        match result {
            Ok(checksum) => tool_checksum(command@, tool@) == Ok::<Option<Seq<char>>, Seq<char>>(
                optional(checksum),
            ),
            Err(error) => tool_checksum(command@, tool@) == Err::<Option<Seq<char>>, Seq<char>>(
                error@,
            ),
        },
{
    match tool {
        CommandOutcome::NotFound(_) => Ok(None),
        CommandOutcome::Failed(cause) => {
            let mut error = joined("run ", command);
            error.append(": ");
            error.append(cause.as_str());
            Err(error)
        },
        CommandOutcome::Ended { success, status: _, stdout, stderr } => {
            if !*success {
                let mut error = joined(command, " failed: ");
                error.append(bounded_stderr(stderr).as_str());
                return Err(error);
            }
            let fields = words_of(read_lossy(stdout.as_slice()).as_str());
            assert(texts(fields@).len() == fields@.len());
            if fields.len() > 0 && looks_like_checksum(fields[0].as_str()) {
                return Ok(Some(fields[0].clone()));
            }
            let mut error = joined("could not parse ", command);
            error.append(" output");
            Err(error)
        },
    }
}

/// How often a text occurs in a list.
pub open spec fn occurrences(list: Seq<Seq<char>>, text: Seq<char>) -> nat
    decreases list.len(),
{
    if list.len() == 0 {
        0
    } else {
        occurrences(list.drop_last(), text) + if list.last() == text {
            1nat
        } else {
            0
        }
    }
}

/// Whether an entry of an archive would leave the directory that it is unpacked into.
pub open spec fn is_unsafe_entry(name: Seq<char>) -> bool {
    (name.len() > 0 && name[0] == '/') || split(name, '/').contains(".."@)
}

/// Whether an archive holds the program once, and nothing that would leave its directory.
pub open spec fn good_listing(listing: Seq<Seq<char>>) -> bool {
    occurrences(listing, "codex-wake"@) == 1 && forall|i: int|
        0 <= i < listing.len() ==> !is_unsafe_entry(#[trigger] listing[i])
}

fn leaves_directory(name: &str) -> (result: bool)
    ensures
        result == is_unsafe_entry(name@),
{
    if name.unicode_len() > 0 && name.get_char(0) == '/' {
        return true;
    }
    let pieces = split_at_each(name, '/');
    let ghost views = split(name@, '/');
    let mut index: usize = 0;
    while index < pieces.len()
        invariant
            views == texts(pieces@),
            views == split(name@, '/'),
            !(name@.len() > 0 && name@[0] == '/'),
            index <= pieces@.len(),
            forall|i: int| 0 <= i < index ==> views[i] != ".."@,
        decreases pieces@.len() - index,
    {
        assert(views[index as int] == pieces@[index as int]@);
        if same_text(pieces[index].as_str(), "..") {
            assert(views.contains(".."@));
            return true;
        }
        index = index + 1;
    }
    assert(!views.contains(".."@));
    false
}

/// Checks the listing of an archive before anything is unpacked.
pub fn validate_archive(listing: &Vec<u8>) -> (result: Result<(), String>)
    ensures
        outcome(result) == if good_listing(lines(lossy_text(listing@))) {
            Ok::<(), Seq<char>>(())
        } else {
            Err("release archive has an unsafe or unexpected layout"@)
        },
{
    let text = read_lossy(listing.as_slice());
    let entries = lines_of(text.as_str());
    let ghost views = lines(text@);
    let mut programs: usize = 0;
    let mut safe = true;
    let mut index: usize = 0;
    assert(views.take(0) =~= seq![]);
    while index < entries.len()
        invariant
            views == texts(entries@),
            index <= entries@.len(),
            programs <= index,
            programs == occurrences(views.take(index as int), "codex-wake"@),
            safe == (forall|i: int| 0 <= i < index ==> !is_unsafe_entry(#[trigger] views[i])),
        decreases entries@.len() - index,
    {
        proof {
            let now = views.take(index + 1);
            assert(now.drop_last() =~= views.take(index as int));
            assert(now.last() == entries@[index as int]@);
            assert(views[index as int] == entries@[index as int]@);
        }
        if same_text(entries[index].as_str(), "codex-wake") {
            programs = programs + 1;
        }
        if leaves_directory(entries[index].as_str()) {
            safe = false;
        }
        index = index + 1;
    }
    assert(views.take(index as int) =~= views);
    if programs == 1 && safe {
        Ok(())
    } else {
        Err("release archive has an unsafe or unexpected layout".to_owned())
    }
}

/// What is wrong with a downloaded program, if anything. `success` and `stdout` are what it gave
/// when it was asked for its version.
pub open spec fn candidate_problem(
    executable: bool,
    success: bool,
    stdout: Seq<u8>,
    expected: VersionView,
) -> Option<Seq<char>> {
    if !executable {
        Some("downloaded codex-wake is not executable"@)
    } else if !success || trim(lossy_text(stdout)) != "codex-wake "@ + version_text(expected) {
        Some("downloaded binary version does not match release "@ + version_text(expected))
    } else {
        None
    }
}

/// Checks a downloaded program.
pub fn validate_candidate(
    executable: bool,
    success: bool,
    stdout: &Vec<u8>,
    expected: &ReleaseVersion,
) -> (result: Result<(), String>)
    ensures
        outcome(result) == match candidate_problem(executable, success, stdout@, expected@) {
            Some(problem) => Err::<(), Seq<char>>(problem),
            None => Ok(()),
        },
{
    if !executable {
        return Err("downloaded codex-wake is not executable".to_owned());
    }
    let version = expected.text();
    let wanted = joined("codex-wake ", version.as_str());
    let said = trimmed(read_lossy(stdout.as_slice()).as_str());
    if !success || !same_text(said.as_str(), wanted.as_str()) {
        return Err(joined("downloaded binary version does not match release ", version.as_str()));
    }
    Ok(())
}

/// The name of a file for the names of temporary files beside it.
pub open spec fn plain_name(path: Seq<char>, fallback: Seq<char>) -> Seq<char> {
    let name = path_name(path);
    if name.len() == 0 || name == "."@ || name == ".."@ {
        fallback
    } else {
        name
    }
}

fn name_of(path: &str, fallback: &str) -> (name: String)
    ensures
        name@ == plain_name(path@, fallback@),
{
    let name = file_name(path);
    if name.as_str().is_empty() || same_text(name.as_str(), ".") || same_text(name.as_str(), "..") {
        fallback.to_owned()
    } else {
        name
    }
}

/// A file of a given name beside another. A path without a last component has no directory.
pub open spec fn beside(path: Seq<char>, name: Seq<char>) -> Result<Seq<char>, Seq<char>> {
    match path_parent(path) {
        Some(parent) => Ok(path_join(parent, name)),
        None => Err(path + " has no parent directory"@),
    }
}

fn place_beside(path: &str, name: &str) -> (result: Result<String, String>)
    ensures
        outcome_view(result) == beside(path@, name@),
{
    match parent_path(path) {
        Some(parent) => Ok(join_path(parent.as_str(), name)),
        None => Err(joined(path, " has no parent directory")),
    }
}

/// A file beside a program, by which that program is replaced at once.
pub fn replacement_path(destination: &str, pid: u32, sequence: u64) -> (result: Result<
    String,
    String,
>)
    ensures
        outcome_view(result) == beside(
            destination@,
            "."@ + plain_name(destination@, "codex-wake"@) + ".update."@ + decimal(pid as nat)
                + "."@ + decimal(sequence as nat),
        ),
{
    let mut name = joined(".", name_of(destination, "codex-wake").as_str());
    name.append(".update.");
    push_decimal(&mut name, pid as u64);
    name.append(".");
    push_decimal(&mut name, sequence);
    place_beside(destination, name.as_str())
}

/// A file beside another, by which that one is replaced at once. `fallback` stands for the name of
/// a path that ends in none.
pub fn temporary_path(destination: &str, fallback: &str, pid: u32, sequence: u64) -> (result: Result<
    String,
    String,
>)
    ensures
        outcome_view(result) == beside(
            destination@,
            "."@ + plain_name(destination@, fallback@) + "."@ + decimal(pid as nat) + "."@
                + decimal(sequence as nat) + ".tmp"@,
        ),
{
    let mut name = joined(".", name_of(destination, fallback).as_str());
    name.append(".");
    push_decimal(&mut name, pid as u64);
    name.append(".");
    push_decimal(&mut name, sequence);
    name.append(".tmp");
    place_beside(destination, name.as_str())
}

/// A download is accepted only if its checksum is the one that the manifest gives for it.
pub proof fn only_matching_downloads_are_accepted(
    manifest: Seq<char>,
    name: Seq<char>,
    actual: Seq<char>,
)
    requires
        is_checksum(actual),
    ensures
        manifest_checksum(manifest, name) matches Ok(expected) ==> is_checksum(expected) && (
        checksum_problem(expected, actual, name) is None <==> same_but_case(expected, actual)),
{
}

} // verus!
