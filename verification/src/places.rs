//! Where records are kept, and whose session it is.
use vstd::prelude::*;

use crate::names::{join_path, path_join};
use crate::text::{blank, joined, optional, outcome_view, trim};

verus! {

/// Whether a character may stand in the part of a path that names the user.
pub open spec fn is_user_char(character: char) -> bool {
    ('a' <= character && character <= 'z') || ('A' <= character && character <= 'Z') || ('0'
        <= character && character <= '9') || character == '-' || character == '_'
}

/// The user as a part of a path: other characters are left out.
pub open spec fn user_part(name: Seq<char>) -> Seq<char> {
    name.filter(|character: char| is_user_char(character))
}

/// The name of the user: `USER`, or else `LOGNAME`, or else `unknown`.
pub open spec fn user_of(user: Option<Seq<char>>, logname: Option<Seq<char>>) -> Seq<char> {
    match (user, logname) {
        (Some(name), _) => user_part(name),
        (None, Some(name)) => user_part(name),
        (None, None) => user_part("unknown"@),
    }
}

/// The name of the user as a part of a path.
pub fn current_user_name(user: Option<String>, logname: Option<String>) -> (name: String)
    ensures
        name@ == user_of(optional(user), optional(logname)),
{
    let full = match (user, logname) {
        (Some(name), _) => name,
        (None, Some(name)) => name,
        (None, None) => "unknown".to_owned(),
    };
    let mut name = String::new();
    let ghost keep = |character: char| is_user_char(character);
    assert(full@.take(0).filter(keep) =~= Seq::<char>::empty()) by {
        reveal(Seq::filter);
    }
    for character in it: full.chars()
        invariant
            it.seq() == full@,
            keep == (|character: char| is_user_char(character)),
            name@ == full@.take(it.index()).filter(keep),
    {
        let letter = ('a' <= character && character <= 'z') || ('A' <= character && character
            <= 'Z');
        let digit = '0' <= character && character <= '9';
        proof {
            reveal(Seq::filter);
            assert(full@.take(it.index() + 1).drop_last() =~= full@.take(it.index()));
        }
        if letter || digit || character == '-' || character == '_' {
            name.push(character);
        }
        assert(name@ =~= full@.take(it.index() + 1).filter(keep));
    }
    assert(full@.take(full@.len() as int) =~= full@);
    name
}

/// What is known of one ancestor of a directory.
#[derive(Debug, Clone, Copy, PartialEq, Eq, Structural)]
pub struct Ancestor {
    pub exists: bool,
    pub is_directory: bool,
    pub is_writable: bool,
}

/// Whether a directory can be created, given its ancestors from itself upwards: the first that
/// exists must be a directory that can be written to.
pub open spec fn creatable(ancestors: Seq<Ancestor>) -> bool
    decreases ancestors.len(),
{
    if ancestors.len() == 0 {
        false
    } else if ancestors[0].exists {
        ancestors[0].is_directory && ancestors[0].is_writable
    } else {
        creatable(ancestors.skip(1))
    }
}

/// Whether a directory can be created, given its ancestors from itself upwards.
pub fn directory_can_be_created(ancestors: &Vec<Ancestor>) -> (result: bool)
    ensures
        result == creatable(ancestors@),
{
    let mut index: usize = 0;
    assert(ancestors@.skip(0) =~= ancestors@);
    while index < ancestors.len()
        invariant
            index <= ancestors@.len(),
            creatable(ancestors@) == creatable(ancestors@.skip(index as int)),
        decreases ancestors@.len() - index,
    {
        let ancestor = ancestors[index];
        assert(ancestors@.skip(index as int)[0] == ancestor);
        if ancestor.exists {
            return ancestor.is_directory && ancestor.is_writable;
        }
        assert(ancestors@.skip(index as int).skip(1) =~= ancestors@.skip(index + 1));
        index = index + 1;
    }
    false
}

/// The preferred directory if it can be created, or else the fallback.
pub open spec fn chosen(
    preferred: Option<Seq<char>>,
    preferred_creatable: bool,
    fallback: Seq<char>,
) -> Seq<char> {
    match preferred {
        Some(path) => if preferred_creatable {
            path
        } else {
            fallback
        },
        None => fallback,
    }
}

/// Chooses the preferred directory if it can be created, or else the fallback.
pub fn choose_writable_directory(
    preferred: Option<String>,
    preferred_creatable: bool,
    fallback: String,
) -> (path: String)
    ensures
        path@ == chosen(optional(preferred), preferred_creatable, fallback@),
{
    match preferred {
        Some(path) => if preferred_creatable {
            path
        } else {
            fallback
        },
        None => fallback,
    }
}

/// The state directory below the runtime directory of the user.
pub open spec fn runtime_state_dir(runtime_dir: Option<Seq<char>>) -> Option<Seq<char>> {
    match runtime_dir {
        Some(path) => Some(path_join(path, "open-wake"@)),
        None => None,
    }
}

/// The state directory below the runtime directory of the user, if there is one.
pub fn preferred_state_dir(runtime_dir: &Option<String>) -> (path: Option<String>)
    ensures
        optional(path) == runtime_state_dir(optional(*runtime_dir)),
{
    match runtime_dir {
        Some(path) => Some(join_path(path.as_str(), "open-wake")),
        None => None,
    }
}

/// Where the records of the sessions lie.
pub open spec fn state_directory(
    override_dir: Option<Seq<char>>,
    runtime_dir: Option<Seq<char>>,
    preferred_creatable: bool,
    user: Seq<char>,
) -> Seq<char> {
    match override_dir {
        Some(path) => path,
        None => chosen(
            runtime_state_dir(runtime_dir),
            preferred_creatable,
            path_join("/tmp"@, "open-wake-"@ + user),
        ),
    }
}

/// The state directory: an override as it is, or else the preferred one if it can be created, or
/// else one in `/tmp`.
pub fn default_state_dir(
    override_dir: Option<String>,
    runtime_dir: Option<String>,
    preferred_creatable: bool,
    user: &str,
) -> (path: String)
    ensures
        path@ == state_directory(
            optional(override_dir),
            optional(runtime_dir),
            preferred_creatable,
            user@,
        ),
        path@ == match optional(override_dir) {
            Some(path) => path,
            None => chosen(
                runtime_state_dir(optional(runtime_dir)),
                preferred_creatable,
                path_join("/tmp"@, "open-wake-"@ + user@),
            ),
        },
{
    if let Some(path) = override_dir {
        return path;
    }
    let preferred = preferred_state_dir(&runtime_dir);
    let fallback = join_path("/tmp", joined("open-wake-", user).as_str());
    choose_writable_directory(preferred, preferred_creatable, fallback)
}

/// The job root below the state home of the user, or below the home directory.
pub open spec fn home_job_root(state_home: Option<Seq<char>>, home: Option<Seq<char>>) -> Option<
    Seq<char>,
> {
    match (state_home, home) {
        (Some(path), _) => Some(path_join(path, "open-wake/jobs"@)),
        (None, Some(path)) => Some(path_join(path, ".local/state/open-wake/jobs"@)),
        (None, None) => None,
    }
}

/// The job root below the state home of the user, or below the home directory.
pub fn preferred_job_root(state_home: &Option<String>, home: &Option<String>) -> (path: Option<
    String,
>)
    ensures
        optional(path) == home_job_root(optional(*state_home), optional(*home)),
{
    match (state_home, home) {
        (Some(path), _) => Some(join_path(path.as_str(), "open-wake/jobs")),
        (None, Some(path)) => Some(join_path(path.as_str(), ".local/state/open-wake/jobs")),
        (None, None) => None,
    }
}

/// Where the records of the jobs lie.
pub open spec fn job_directory(
    override_dir: Option<Seq<char>>,
    state_home: Option<Seq<char>>,
    home: Option<Seq<char>>,
    preferred_creatable: bool,
    user: Seq<char>,
) -> Seq<char> {
    match override_dir {
        Some(path) => path,
        None => chosen(
            home_job_root(state_home, home),
            preferred_creatable,
            path_join(path_join("/var/tmp"@, "open-wake-"@ + user), "jobs"@),
        ),
    }
}

/// The job root: an override as it is, or else the preferred one if it can be created, or else one
/// in `/var/tmp`.
pub fn default_job_root(
    override_dir: Option<String>,
    state_home: Option<String>,
    home: Option<String>,
    preferred_creatable: bool,
    user: &str,
) -> (path: String)
    ensures
        path@ == job_directory(
            optional(override_dir),
            optional(state_home),
            optional(home),
            preferred_creatable,
            user@,
        ),
        path@ == match optional(override_dir) {
            Some(path) => path,
            None => chosen(
                home_job_root(optional(state_home), optional(home)),
                preferred_creatable,
                path_join(path_join("/var/tmp"@, "open-wake-"@ + user@), "jobs"@),
            ),
        },
{
    if let Some(path) = override_dir {
        return path;
    }
    let preferred = preferred_job_root(&state_home, &home);
    let shared = join_path("/var/tmp", joined("open-wake-", user).as_str());
    let fallback = join_path(shared.as_str(), "jobs");
    choose_writable_directory(preferred, preferred_creatable, fallback)
}

/// The session that a command is about: the one named, or else that of the environment. A blank
/// name counts as none.
pub open spec fn session_named(explicit: Option<Seq<char>>, thread: Option<Seq<char>>) -> Result<
    Seq<char>,
    Seq<char>,
> {
    let name = match explicit {
        Some(name) => Some(name),
        None => thread,
    };
    match name {
        Some(name) => if trim(name).len() > 0 {
            Ok(name)
        } else {
            Err(no_session())
        },
        None => Err(no_session()),
    }
}

/// What is said where no session is named.
pub open spec fn no_session() -> Seq<char> {
    "CODEX_THREAD_ID is not set; run this command from a Codex turn or pass --thread"@
}

/// The session that a command is about.
pub fn current_session_id(explicit: Option<String>, thread: Option<String>) -> (result: Result<
    String,
    String,
>)
    ensures
        outcome_view(result) == session_named(optional(explicit), optional(thread)),
{
    let name = match explicit {
        Some(name) => Some(name),
        None => thread,
    };
    match name {
        Some(name) => if !blank(name.as_str()) {
            Ok(name)
        } else {
            Err(
                "CODEX_THREAD_ID is not set; run this command from a Codex turn or pass --thread".to_owned(),
            )
        },
        None => Err(
            "CODEX_THREAD_ID is not set; run this command from a Codex turn or pass --thread".to_owned(),
        ),
    }
}

} // verus!
