//! What holds of every name: of paths and their parts, of file names made from IDs, of quoted words
//! and of the directories that are chosen.
use vstd::prelude::*;

use crate::ids::{condition_id, job_id};
use crate::names::{
    kept_components, path_components, path_join, path_name, path_parent, quoted_chars, safe, safe_bytes,
    safe_name_cannot_leave_its_directory, safe_name_is_injective, settled, shell_quoted,
    without_name,
};
use crate::places::{
    chosen, creatable, home_job_root, job_directory, runtime_state_dir, session_named,
    state_directory, user_of, user_part, Ancestor,
};
use crate::session::{
    check_output_name, condition_file, delivery_file, lease_file, lock_file,
};
use crate::text::{decimal, split, trim};
use crate::text_laws::a_last_part_stands_at_the_end;

verus! {

/// A leaf is put below a directory with one separator between them; an absolute leaf stands alone.
pub proof fn paths_are_joined_by_one_separator(base: Seq<char>, leaf: Seq<char>)
    ensures
        leaf.len() > 0 && leaf[0] == '/' ==> path_join(base, leaf) == leaf,
        (leaf.len() == 0 || leaf[0] != '/') && base.len() > 0 && base.last() != '/' ==> path_join(
            base,
            leaf,
        ) == base + seq!['/'] + leaf,
        (leaf.len() == 0 || leaf[0] != '/') && base.len() > 0 && base.last() == '/' ==> path_join(
            base,
            leaf,
        ) == base + leaf,
        base.len() == 0 ==> path_join(base, leaf) == leaf,
{
    reveal_strlit("/");
    assert("/"@ =~= seq!['/']);
    assert(base.len() == 0 ==> base + leaf =~= leaf);
}

proof fn lemma_without_name(directory: Seq<char>, name: Seq<char>)
    requires
        directory.len() == 0 || directory.last() == '/',
        !name.contains('/'),
    ensures
        without_name(directory + name) == directory,
    decreases name.len(),
{
    if name.len() > 0 {
        assert(name.contains(name[name.len() - 1]));
        assert((directory + name).last() == name.last());
        assert((directory + name).drop_last() =~= directory + name.drop_last());
        assert forall|i: int| 0 <= i < name.drop_last().len() implies name.drop_last()[i]
            != '/' by {
            assert(name.contains(name[i]));
        }
        lemma_without_name(directory, name.drop_last());
    } else {
        assert(directory + name =~= directory);
    }
}

/// What was joined is taken apart again: the parent of a leaf is the directory that it was put below,
/// and its name is the leaf.
pub proof fn a_joined_path_is_taken_apart(directory: Seq<char>, leaf: Seq<char>)
    requires
        directory.len() > 0,
        directory.last() != '/',
        directory.last() != '.',
        leaf.len() > 0,
        !leaf.contains('/'),
        leaf != seq!['.'],
    ensures
        path_parent(path_join(directory, leaf)) == Some(directory),
        path_name(path_join(directory, leaf)) == leaf,
{
    assert(leaf.contains(leaf[0]));
    assert(leaf.contains(leaf[leaf.len() - 1]));
    paths_are_joined_by_one_separator(directory, leaf);
    let start = directory + seq!['/'];
    let path = start + leaf;
    assert(path_join(directory, leaf) =~= path);
    assert(path.last() == leaf.last());
    if path.last() == '.' && path[path.len() - 2] == '/' {
        if leaf.len() > 1 {
            assert(path[path.len() - 2] == leaf[leaf.len() - 2]);
            assert(leaf.contains(leaf[leaf.len() - 2]));
        }
        assert(leaf =~= seq!['.']);
    }
    assert(settled(path) == path);
    lemma_without_name(start, leaf);
    assert(path.skip(start.len() as int) =~= leaf);
    assert(start.drop_last() =~= directory);
    assert(start.last() == '/');
    assert(start.len() > 1);
    assert(settled(start) == settled(directory));
    assert(settled(directory) == directory);
}

proof fn lemma_quoted_parts(left: Seq<char>, right: Seq<char>)
    ensures
        quoted_chars(left + right) == quoted_chars(left) + quoted_chars(right),
    decreases right.len(),
{
    if right.len() > 0 {
        assert((left + right).drop_last() =~= left + right.drop_last());
        lemma_quoted_parts(left, right.drop_last());
        assert(quoted_chars(left + right) =~= quoted_chars(left) + quoted_chars(right));
    } else {
        assert(left + right =~= left);
        assert(quoted_chars(left) + quoted_chars(right) =~= quoted_chars(left));
    }
}

proof fn lemma_unquoted(value: Seq<char>)
    requires
        !value.contains('\''),
    ensures
        quoted_chars(value) == value,
    decreases value.len(),
{
    if value.len() > 0 {
        assert(value.contains(value[value.len() - 1]));
        assert forall|i: int| 0 <= i < value.drop_last().len() implies value.drop_last()[i]
            != '\'' by {
            assert(value.contains(value[i]));
        }
        lemma_unquoted(value.drop_last());
        assert(value =~= value.drop_last() + seq![value.last()]);
    } else {
        assert(quoted_chars(value) =~= value);
    }
}

/// A word stands between single quotation marks as it is, and a mark inside it ends the quotation,
/// stands alone behind a backslash and begins the quotation again: so a shell reads the word back,
/// whatever it holds.
pub proof fn words_are_quoted_for_a_shell(plain: Seq<char>, rest: Seq<char>)
    requires
        !plain.contains('\''),
    ensures
        shell_quoted(plain) == seq!['\''] + plain + seq!['\''],
        ({
            let tail = shell_quoted(rest);
            &&& tail.len() >= 2
            &&& tail[0] == '\''
            &&& shell_quoted(plain + seq!['\''] + rest) == seq!['\''] + plain + seq![
                '\'',
                '\\',
                '\'',
            ] + tail
        }),
{
    reveal_strlit("'");
    reveal_strlit("'\\''");
    assert("'"@ =~= seq!['\'']);
    assert("'\\''"@ =~= seq!['\'', '\\', '\'', '\'']);
    lemma_unquoted(plain);
    let mark = seq!['\''];
    lemma_quoted_parts(plain + mark, rest);
    lemma_quoted_parts(plain, mark);
    assert(mark.drop_last() =~= seq![]);
    assert(quoted_chars(Seq::<char>::empty()) == Seq::<char>::empty());
    assert(quoted_chars(mark) =~= "'\\''"@);
    assert(shell_quoted(plain + mark + rest) =~= seq!['\''] + plain + seq!['\'', '\\', '\'']
        + shell_quoted(rest));
}

/// The digit of a number below sixteen, in upper case.
pub open spec fn hex_digit(value: int) -> char {
    "0123456789ABCDEF"@[value]
}

/// A file name is made byte by byte: ASCII letters, digits, hyphens and dots stay, and every other
/// byte becomes an underscore and its two hexadecimal digits.
pub proof fn names_are_made_byte_by_byte(byte: u8, rest: Seq<u8>)
    ensures
        safe_bytes(seq![]) == Seq::<char>::empty(),
        ({
            let letter = ('a' as u8 <= byte <= 'z' as u8) || ('A' as u8 <= byte <= 'Z' as u8);
            let digit = '0' as u8 <= byte <= '9' as u8;
            let kept = letter || digit || byte == '-' as u8 || byte == '.' as u8;
            safe_bytes(seq![byte] + rest) == (if kept {
                seq![byte as char]
            } else {
                seq!['_', hex_digit(byte as int / 16), hex_digit(byte as int % 16)]
            }) + safe_bytes(rest)
        }),
{
    reveal_strlit("0123456789ABCDEF");
    let all = seq![byte] + rest;
    assert(all[0] == byte);
    assert(all.drop_first() =~= rest);
}

/// IDs are numbers in decimal digits with hyphens between them.
pub proof fn ids_are_numbers(now_ms: u64, pid: u32, timestamp: u128, sequence: u64)
    ensures
        condition_id(now_ms, pid, sequence) == decimal(now_ms as nat) + seq!['-'] + decimal(
            pid as nat,
        ) + seq!['-'] + decimal(sequence as nat),
        job_id(pid, timestamp, sequence) == seq!['j', 'o', 'b', '-'] + decimal(pid as nat) + seq![
            '-',
        ] + decimal(timestamp as nat) + seq!['-'] + decimal(sequence as nat),
{
    reveal_strlit("-");
    reveal_strlit("job-");
    assert("-"@ =~= seq!['-']);
    assert("job-"@ =~= seq!['j', 'o', 'b', '-']);
}

/// A directory can be made if and only if the nearest ancestor that exists is a directory that can be
/// written to.
pub proof fn the_nearest_ancestor_decides(ancestors: Seq<Ancestor>, nearest: int)
    requires
        0 <= nearest <= ancestors.len(),
        forall|i: int| 0 <= i < nearest ==> !(#[trigger] ancestors[i]).exists,
        nearest < ancestors.len() ==> ancestors[nearest].exists,
    ensures
        creatable(ancestors) <==> nearest < ancestors.len() && ancestors[nearest].is_directory
            && ancestors[nearest].is_writable,
    decreases ancestors.len(),
{
    if nearest > 0 {
        let rest = ancestors.skip(1);
        assert forall|i: int| 0 <= i < nearest - 1 implies !(#[trigger] rest[i]).exists by {
            assert(rest[i] == ancestors[i + 1]);
        }
        assert(!ancestors[0].exists);
        the_nearest_ancestor_decides(rest, nearest - 1);
    }
}

/// The preferred directory is taken where there is one and it can be made; otherwise the other one
/// is.
pub proof fn the_preferred_directory_comes_first(
    preferred: Seq<char>,
    creatable: bool,
    fallback: Seq<char>,
)
    ensures
        chosen(None, creatable, fallback) == fallback,
        chosen(Some(preferred), true, fallback) == preferred,
        chosen(Some(preferred), false, fallback) == fallback,
{
}

/// State lies in the runtime directory, and jobs in the state directory of the user, or where it
/// would be in the home directory.
pub proof fn directories_are_named_after_the_program(
    directory: Seq<char>,
    home: Option<Seq<char>>,
)
    requires
        directory.len() > 0,
        directory.last() != '/',
    ensures
        runtime_state_dir(Some(directory)) == Some(directory + "/open-wake"@),
        runtime_state_dir(None) is None,
        home_job_root(Some(directory), home) == Some(directory + "/open-wake/jobs"@),
        home_job_root(None, Some(directory)) == Some(
            directory + "/.local/state/open-wake/jobs"@,
        ),
        home_job_root(None, None) is None,
{
    reveal_strlit("/");
    reveal_strlit("open-wake");
    reveal_strlit("/open-wake");
    reveal_strlit("open-wake/jobs");
    reveal_strlit("/open-wake/jobs");
    reveal_strlit(".local/state/open-wake/jobs");
    reveal_strlit("/.local/state/open-wake/jobs");
    assert(directory + "/"@ + "open-wake"@ =~= directory + "/open-wake"@);
    assert(directory + "/"@ + "open-wake/jobs"@ =~= directory + "/open-wake/jobs"@);
    assert(directory + "/"@ + ".local/state/open-wake/jobs"@ =~= directory
        + "/.local/state/open-wake/jobs"@);
}

/// A session has the name that was given, or else the one of the Codex thread, and a name that is
/// blank is none.
pub proof fn a_session_needs_a_name(explicit: Option<Seq<char>>, thread: Option<Seq<char>>)
    ensures
        ({
            let name = if explicit is Some {
                explicit
            } else {
                thread
            };
            &&& session_named(explicit, thread) is Ok <==> name is Some && trim(name->0).len() > 0
            &&& session_named(explicit, thread) matches Ok(session) ==> Some(session) == name
        }),
{
}

/// Whether a character of a user name can stand in a directory name.
pub open spec fn can_stand(character: char) -> bool {
    ('a' <= character <= 'z') || ('A' <= character <= 'Z') || ('0' <= character <= '9') || character
        == '-' || character == '_'
}

/// Of a user name the letters, digits, hyphens and underscores stay, in their order, and nothing
/// else. The first of the two names that is set is taken, even if nothing of it can stand.
pub proof fn a_user_name_is_stripped(
    name: Seq<char>,
    last: char,
    other: Option<Seq<char>>,
)
    ensures
        user_part(seq![]) == Seq::<char>::empty(),
        user_part(name.push(last)) == if can_stand(last) {
            user_part(name).push(last)
        } else {
            user_part(name)
        },
        user_of(Some(name), other) == user_part(name),
        user_of(None, Some(name)) == user_part(name),
        user_of(None, None) == user_part("unknown"@),
{
    broadcast use vstd::seq_lib::group_filter_ensures;

    reveal(Seq::filter);
    assert(name.push(last).drop_last() =~= name);
}

/// A directory that was named is taken as it is. Without one, state lies in the runtime directory if
/// it can be made there and otherwise in a temporary directory of the user; jobs lie in the state
/// directory of the user, or in a temporary directory that outlives a restart.
pub proof fn a_named_directory_is_taken(
    named: Seq<char>,
    runtime: Option<Seq<char>>,
    home: Option<Seq<char>>,
    creatable: bool,
    user: Seq<char>,
)
    ensures
        state_directory(Some(named), runtime, creatable, user) == named,
        job_directory(Some(named), runtime, home, creatable, user) == named,
        runtime is None || !creatable ==> state_directory(None, runtime, creatable, user)
            == "/tmp/open-wake-"@ + user,
        runtime is Some && creatable ==> state_directory(None, runtime, creatable, user)
            == runtime_state_dir(runtime)->0,
        (runtime is None && home is None) || !creatable ==> job_directory(
            None,
            runtime,
            home,
            creatable,
            user,
        ) == path_join("/var/tmp/open-wake-"@ + user, "jobs"@),
        (runtime is Some || home is Some) && creatable ==> job_directory(
            None,
            runtime,
            home,
            creatable,
            user,
        ) == home_job_root(runtime, home)->0,
{
    reveal_strlit("/");
    reveal_strlit("/tmp");
    reveal_strlit("/var/tmp");
    reveal_strlit("open-wake-");
    reveal_strlit("/tmp/open-wake-");
    reveal_strlit("/var/tmp/open-wake-");
    assert("/tmp"@ + "/"@ + ("open-wake-"@ + user) =~= "/tmp/open-wake-"@ + user);
    assert("/var/tmp"@ + "/"@ + ("open-wake-"@ + user) =~= "/var/tmp/open-wake-"@ + user);
}

/// The files of a session lie side by side in the state directory, each under a name of its own.
pub proof fn the_files_of_a_session_are_apart(directory: Seq<char>, session_id: Seq<char>)
    requires
        directory.len() > 0,
        directory.last() != '/',
    ensures
        condition_file(directory, session_id) == directory + seq!['/'] + safe(session_id)
            + ".json"@,
        lock_file(directory, session_id) == directory + "/."@ + safe(session_id) + ".lock"@,
        lease_file(directory, session_id) == directory + "/."@ + safe(session_id) + ".owner.json"@,
        delivery_file(directory, session_id) == directory + "/."@ + safe(session_id)
            + ".delivery.json"@,
        lock_file(directory, session_id) != lease_file(directory, session_id),
        lock_file(directory, session_id) != delivery_file(directory, session_id),
        lease_file(directory, session_id) != delivery_file(directory, session_id),
        condition_file(directory, session_id) != lock_file(directory, session_id),
        condition_file(directory, session_id) != lease_file(directory, session_id),
        condition_file(directory, session_id) != delivery_file(directory, session_id),
{
    reveal_strlit("/");
    reveal_strlit(".");
    reveal_strlit("/.");
    reveal_strlit(".json");
    reveal_strlit(".lock");
    reveal_strlit(".owner.json");
    reveal_strlit(".delivery.json");
    safe_name_cannot_leave_its_directory(session_id);
    let name = safe(session_id);
    let first = name + ".json"@;
    if name.len() > 0 {
        assert(first[0] == name[0]);
        assert(name.contains(name[0]));
    }
    assert(first[0] != '/');
    assert(directory + "/"@ + first =~= directory + seq!['/'] + name + ".json"@);
    assert(directory + "/"@ + ("."@ + name + ".lock"@) =~= directory + "/."@ + name + ".lock"@);
    assert(directory + "/"@ + ("."@ + name + ".owner.json"@) =~= directory + "/."@ + name
        + ".owner.json"@);
    assert(directory + "/"@ + ("."@ + name + ".delivery.json"@) =~= directory + "/."@ + name
        + ".delivery.json"@);
    assert(condition_file(directory, session_id).len() != lock_file(directory, session_id).len());
    assert(condition_file(directory, session_id).len() != lease_file(directory, session_id).len());
    assert(condition_file(directory, session_id).len() != delivery_file(
        directory,
        session_id,
    ).len());
    assert(lock_file(directory, session_id).len() != lease_file(directory, session_id).len());
    assert(lock_file(directory, session_id).len() != delivery_file(directory, session_id).len());
    assert(lease_file(directory, session_id).len() != delivery_file(directory, session_id).len());
}

proof fn lemma_same_middle(start: Seq<char>, name: Seq<char>, other: Seq<char>, end: Seq<char>)
    requires
        start + name + end == start + other + end,
    ensures
        name == other,
{
    let whole = start + name + end;
    assert(whole.len() == start.len() + name.len() + end.len());
    assert((start + other + end).len() == start.len() + other.len() + end.len());
    let middle = whole.subrange(start.len() as int, whole.len() - end.len());
    assert(name =~= middle);
    assert(other =~= middle);
}

/// Two sessions do not share a file: whoever has the record of a session has the session.
pub proof fn sessions_do_not_share_their_files(
    directory: Seq<char>,
    session_id: Seq<char>,
    other_id: Seq<char>,
)
    requires
        directory.len() > 0,
        directory.last() != '/',
        condition_file(directory, session_id) == condition_file(directory, other_id)
            || lease_file(directory, session_id) == lease_file(directory, other_id)
            || delivery_file(directory, session_id) == delivery_file(directory, other_id)
            || lock_file(directory, session_id) == lock_file(directory, other_id),
    ensures
        session_id == other_id,
{
    the_files_of_a_session_are_apart(directory, session_id);
    the_files_of_a_session_are_apart(directory, other_id);
    let name = safe(session_id);
    let other = safe(other_id);
    reveal_strlit("/.");
    if condition_file(directory, session_id) == condition_file(directory, other_id) {
        lemma_same_middle(directory + seq!['/'], name, other, ".json"@);
    } else if lease_file(directory, session_id) == lease_file(directory, other_id) {
        lemma_same_middle(directory + "/."@, name, other, ".owner.json"@);
    } else if delivery_file(directory, session_id) == delivery_file(directory, other_id) {
        lemma_same_middle(directory + "/."@, name, other, ".delivery.json"@);
    } else {
        lemma_same_middle(directory + "/."@, name, other, ".lock"@);
    }
    safe_name_is_injective(session_id, other_id);
}

/// The parts of a path are what stands between its separators: a leaf that is put below a directory
/// is one more part, and empty parts and dots are none.
pub proof fn a_leaf_is_one_more_part(directory: Seq<char>, leaf: Seq<char>)
    requires
        directory.len() > 0,
        !leaf.contains('/'),
    ensures
        path_components(directory + seq!['/'] + leaf) == if leaf.len() == 0 || leaf == seq!['.'] {
            path_components(directory)
        } else {
            path_components(directory).push(leaf)
        },
{
    reveal_strlit(".");
    assert("."@ =~= seq!['.']);
    let path = directory + seq!['/'] + leaf;
    let pieces = split(directory, '/');
    a_last_part_stands_at_the_end(directory, '/', leaf);
    assert(path[0] == directory[0]);
    assert(pieces.push(leaf).drop_last() =~= pieces);
    assert(split(directory, '/').len() > 0);
    if directory[0] == '/' && leaf.len() > 0 && leaf != seq!['.'] {
        assert(seq!["/"@] + kept_components(pieces).push(leaf) =~= (seq!["/"@] + kept_components(
            pieces,
        )).push(leaf));
    }
}

/// A separator at the end of a path, or a separator and a dot, changes neither its directory nor its
/// name.
pub proof fn a_trailing_separator_changes_nothing(path: Seq<char>)
    requires
        path.len() > 0,
    ensures
        path_parent(path + seq!['/']) == path_parent(path),
        path_name(path + seq!['/']) == path_name(path),
        path_parent(path + seq!['/', '.']) == path_parent(path),
        path_name(path + seq!['/', '.']) == path_name(path),
{
    let longer = path + seq!['/'];
    let dotted = path + seq!['/', '.'];
    assert(longer.drop_last() =~= path);
    assert(longer.last() == '/');
    assert(settled(longer) == settled(path));
    assert(dotted.drop_last() =~= longer);
    assert(dotted.last() == '.');
    assert(dotted[dotted.len() - 2] == '/');
    assert(settled(dotted) == settled(longer));
}

/// The output of a check is kept beside the record of its session, under the names of the session, the
/// condition and the hook.
pub proof fn check_output_is_named_after_its_hook(
    session_id: Seq<char>,
    condition_id: Seq<char>,
    owner_id: Seq<char>,
)
    ensures
        check_output_name(session_id, condition_id, owner_id) == safe(session_id) + seq!['.']
            + safe(condition_id) + seq!['.'] + safe(owner_id) + ".last-check.log"@,
{
    reveal_strlit(".");
    assert("."@ =~= seq!['.']);
}

} // verus!
