//! Installing the hook and the skill, taking them out again, and looking whether they are in order.
//!
//! A caller observes the files, and carries out the operations that a plan lists, in their order.
use serde_json::Value;
use toml_edit::DocumentMut;
use vstd::prelude::*;
use vstd::utf8::encode_utf8;

pub use crate::hooks_file::{managed_hook_config, MANAGED_STATUS_MESSAGE};
pub use crate::uninstall::{inspect_hook, inspect_hook_enabled, inspect_skill, uninstall};

use crate::config::{disable_document, disabled, enable_document, enabled};
use crate::hooks_file::{
    keys_in_file, managed_handlers, managed_hook_state_keys, merge_managed_hook, merged,
    places_in_file, setup_leaves_one_managed_handler,
};
use crate::json::{
    bytes_outcome, empty_object, json_of, parse_json, parsed_json, plain, pretty_json, put_member,
    write_pretty, JsonView, MAX_NESTING,
};
use crate::names::{join_path, path_join, shell_quote, shell_quoted};
use crate::stored::{Stored, StoredView};
use crate::text::{joined, optional, texts};
use crate::toml::{
    document_text, document_view, parse_document, parsed_toml, write_document, TomlView,
};

verus! {

/// The access rights of a file that everybody may read.
pub const SHARED_MODE: u32 = 0o644;

/// The access rights of a file for its owner alone.
pub const PRIVATE_MODE: u32 = 0o600;

/// For whom the hook is installed.
#[derive(Debug, Clone, Copy, PartialEq, Eq, Structural)]
pub enum InstallScope {
    Project,
    User,
}

impl InstallScope {
    /// The name of a scope.
    pub open spec fn label(self) -> Seq<char> {
        match self {
            InstallScope::Project => "project"@,
            InstallScope::User => "user"@,
        }
    }

    /// The name of this scope.
    pub fn as_str(self) -> (name: &'static str)
        ensures
            name@ == self.label(),
    {
        match self {
            InstallScope::Project => "project",
            InstallScope::User => "user",
        }
    }
}

/// What is installed where.
#[derive(Debug)]
pub struct SetupTarget {
    pub scope: InstallScope,
    pub hook_path: String,
    pub skill_dir: String,
    pub hook_command: String,
    pub hook_mode: u32,
    pub codex_config_path: Option<String>,
}

/// The view of a [`SetupTarget`].
pub struct SetupTargetView {
    pub scope: InstallScope,
    pub hook_path: Seq<char>,
    pub skill_dir: Seq<char>,
    pub hook_command: Seq<char>,
    pub hook_mode: u32,
    pub codex_config_path: Option<Seq<char>>,
}

impl View for SetupTarget {
    type V = SetupTargetView;

    open spec fn view(&self) -> SetupTargetView {
        SetupTargetView {
            scope: self.scope,
            hook_path: self.hook_path@,
            skill_dir: self.skill_dir@,
            hook_command: self.hook_command@,
            hook_mode: self.hook_mode,
            codex_config_path: optional(self.codex_config_path),
        }
    }
}

impl SetupTargetView {
    /// The main file of the skill.
    pub open spec fn skill_path(self) -> Seq<char> {
        path_join(self.skill_dir, "SKILL.md"@)
    }

    /// The agent file of the skill.
    pub open spec fn agent_path(self) -> Seq<char> {
        path_join(self.skill_dir, "agents/openai.yaml"@)
    }
}

/// Whether anything of an installation is there.
pub open spec fn is_installed(skill_dir_exists: bool, hook: Option<Seq<u8>>) -> bool {
    skill_dir_exists || match hook {
        Some(bytes) => match parsed_json(bytes) {
            Ok(root) => places_in_file(root) matches Ok(places) && places.len() > 0,
            Err(_) => false,
        },
        None => false,
    }
}

/// The installation for a repository.
pub open spec fn project_target(project_root: Seq<char>) -> SetupTargetView {
    SetupTargetView {
        scope: InstallScope::Project,
        hook_path: path_join(project_root, ".codex/hooks.json"@),
        skill_dir: path_join(project_root, ".agents/skills/open-wake"@),
        hook_command: "open-wake hook"@,
        hook_mode: SHARED_MODE,
        codex_config_path: None,
    }
}

/// The installation for a user.
pub open spec fn user_target(
    home: Seq<char>,
    codex_home: Seq<char>,
    binary: Seq<char>,
) -> SetupTargetView {
    SetupTargetView {
        scope: InstallScope::User,
        hook_path: path_join(codex_home, "hooks.json"@),
        skill_dir: path_join(home, ".agents/skills/open-wake"@),
        hook_command: shell_quoted(binary) + " hook"@,
        hook_mode: PRIVATE_MODE,
        codex_config_path: Some(path_join(codex_home, "config.toml"@)),
    }
}

impl SetupTarget {
    /// The installation for a repository.
    pub fn project(project_root: &str) -> (target: SetupTarget)
        ensures
            target@ == project_target(project_root@),
            target@ == (SetupTargetView {
                scope: InstallScope::Project,
                hook_path: path_join(project_root@, ".codex/hooks.json"@),
                skill_dir: path_join(project_root@, ".agents/skills/open-wake"@),
                hook_command: "open-wake hook"@,
                hook_mode: SHARED_MODE,
                codex_config_path: None,
            }),
    {
        SetupTarget {
            scope: InstallScope::Project,
            hook_path: join_path(project_root, ".codex/hooks.json"),
            skill_dir: join_path(project_root, ".agents/skills/open-wake"),
            hook_command: "open-wake hook".to_owned(),
            hook_mode: SHARED_MODE,
            codex_config_path: None,
        }
    }

    /// The installation for a user.
    pub fn user(home: &str, codex_home: &str, binary: &str) -> (target: SetupTarget)
        ensures
            target@ == user_target(home@, codex_home@, binary@),
            target@ == (SetupTargetView {
                scope: InstallScope::User,
                hook_path: path_join(codex_home@, "hooks.json"@),
                skill_dir: path_join(home@, ".agents/skills/open-wake"@),
                hook_command: shell_quoted(binary@) + " hook"@,
                hook_mode: PRIVATE_MODE,
                codex_config_path: Some(path_join(codex_home@, "config.toml"@)),
            }),
    {
        let mut hook_command = shell_quote(binary);
        hook_command.append(" hook");
        SetupTarget {
            scope: InstallScope::User,
            hook_path: join_path(codex_home, "hooks.json"),
            skill_dir: join_path(home, ".agents/skills/open-wake"),
            hook_command,
            hook_mode: PRIVATE_MODE,
            codex_config_path: Some(join_path(codex_home, "config.toml")),
        }
    }

    /// The same installation with another Codex configuration.
    pub fn with_codex_config_path(self, path: String) -> (target: SetupTarget)
        ensures
            target@ == (SetupTargetView { codex_config_path: Some(path@), ..self@ }),
    {
        SetupTarget {
            scope: self.scope,
            hook_path: self.hook_path,
            skill_dir: self.skill_dir,
            hook_command: self.hook_command,
            hook_mode: self.hook_mode,
            codex_config_path: Some(path),
        }
    }

    /// The command that makes this installation.
    pub fn setup_command(&self) -> (command: String)
        ensures
            command@ == "open-wake setup --scope "@ + self@.scope.label(),
    {
        joined("open-wake setup --scope ", self.scope.as_str())
    }

    /// Whether anything of this installation is there. `hook` is the hook file as far as it could
    /// be read.
    pub fn has_any_installation(&self, skill_dir_exists: bool, hook: &Option<Vec<u8>>) -> (result:
        bool)
        ensures
            result == is_installed(
                skill_dir_exists,
                match *hook {
                    Some(bytes) => Some(bytes@),
                    None => None,
                },
            ),
            result == (skill_dir_exists || match *hook {
                Some(bytes) => match parsed_json(bytes@) {
                    Ok(root) => places_in_file(root) matches Ok(places) && places.len() > 0,
                    Err(_) => false,
                },
                None => false,
            }),
    {
        if skill_dir_exists {
            return true;
        }
        match hook {
            Some(bytes) => match parse_json(bytes.as_slice()) {
                Ok(root) => match managed_handlers(&root) {
                    Ok(places) => places.len() > 0,
                    Err(_) => false,
                },
                Err(_) => false,
            },
            None => false,
        }
    }
}

/// What became of a file.
#[derive(Debug, Clone, Copy, PartialEq, Eq, Structural)]
pub enum ChangeKind {
    Created,
    Updated,
    Unchanged,
    Removed,
    Missing,
    RetainedModified,
}

/// One file and what became of it.
#[derive(Debug)]
pub struct FileChange {
    pub path: String,
    pub action: ChangeKind,
}

/// The view of a [`FileChange`].
pub struct FileChangeView {
    pub path: Seq<char>,
    pub action: ChangeKind,
}

impl View for FileChange {
    type V = FileChangeView;

    open spec fn view(&self) -> FileChangeView {
        FileChangeView { path: self.path@, action: self.action }
    }
}

/// What some changes look like.
pub open spec fn change_views(changes: Seq<FileChange>) -> Seq<FileChangeView> {
    changes.map_values(|change: FileChange| change@)
}

/// What was done for an installation.
#[derive(Debug)]
pub struct SetupReport {
    pub scope: InstallScope,
    pub dry_run: bool,
    pub changes: Vec<FileChange>,
}

/// The view of a [`SetupReport`].
pub struct SetupReportView {
    pub scope: InstallScope,
    pub dry_run: bool,
    pub changes: Seq<FileChangeView>,
}

impl View for SetupReport {
    type V = SetupReportView;

    open spec fn view(&self) -> SetupReportView {
        SetupReportView {
            scope: self.scope,
            dry_run: self.dry_run,
            changes: change_views(self.changes@),
        }
    }
}

/// One operation on a file.
#[derive(Debug)]
pub enum FileOperation {
    /// Replace a file, or make it, with these contents and access rights.
    Write { path: String, contents: Vec<u8>, mode: u32 },
    /// Remove a file.
    Remove(String),
    /// Remove a directory if it is empty.
    RemoveDirectory(String),
}

/// The view of a [`FileOperation`].
pub enum FileOperationView {
    Write { path: Seq<char>, contents: Seq<u8>, mode: u32 },
    Remove(Seq<char>),
    RemoveDirectory(Seq<char>),
}

impl View for FileOperation {
    type V = FileOperationView;

    open spec fn view(&self) -> FileOperationView {
        match *self {
            FileOperation::Write { path, contents, mode } => FileOperationView::Write {
                path: path@,
                contents: contents@,
                mode,
            },
            FileOperation::Remove(path) => FileOperationView::Remove(path@),
            FileOperation::RemoveDirectory(path) => FileOperationView::RemoveDirectory(path@),
        }
    }
}

/// What some operations look like.
pub open spec fn operation_views(operations: Seq<FileOperation>) -> Seq<FileOperationView> {
    operations.map_values(|operation: FileOperation| operation@)
}

/// What is to be done for an installation: the operations, and the report or an error. The
/// operations come first; those before an error are carried out too.
#[derive(Debug)]
pub struct SetupPlan {
    pub operations: Vec<FileOperation>,
    pub result: Result<SetupReport, String>,
}

/// The view of a [`SetupPlan`].
pub struct SetupPlanView {
    pub operations: Seq<FileOperationView>,
    pub result: Result<SetupReportView, Seq<char>>,
}

impl View for SetupPlan {
    type V = SetupPlanView;

    open spec fn view(&self) -> SetupPlanView {
        SetupPlanView {
            operations: operation_views(self.operations@),
            result: match self.result {
                Ok(report) => Ok(report@),
                Err(error) => Err(error@),
            },
        }
    }
}

/// A file that may be replaced, as it was found.
#[derive(Debug)]
pub enum Observed<T> {
    Missing,
    /// A link, which is not followed.
    Symlink,
    /// What it is could not be told.
    Uninspected(String),
    /// It could not be read.
    Unreadable(String),
    Found(T),
}

/// The view of an [`Observed`] file.
pub enum ObservedView<V> {
    Missing,
    Symlink,
    Uninspected(Seq<char>),
    Unreadable(Seq<char>),
    Found(V),
}

impl<T: View> View for Observed<T> {
    type V = ObservedView<T::V>;

    open spec fn view(&self) -> ObservedView<T::V> {
        match *self {
            Observed::Missing => ObservedView::Missing,
            Observed::Symlink => ObservedView::Symlink,
            Observed::Uninspected(error) => ObservedView::Uninspected(error@),
            Observed::Unreadable(error) => ObservedView::Unreadable(error@),
            Observed::Found(contents) => ObservedView::Found(contents@),
        }
    }
}

/// The files of an installation, as they were found.
#[derive(Debug)]
pub struct SetupFiles {
    pub hook: Observed<Vec<u8>>,
    pub config: Observed<String>,
    pub skill: Stored<Vec<u8>>,
    pub agent: Stored<Vec<u8>>,
}

/// The view of [`SetupFiles`].
pub struct SetupFilesView {
    pub hook: ObservedView<Seq<u8>>,
    pub config: ObservedView<Seq<char>>,
    pub skill: StoredView<Seq<u8>>,
    pub agent: StoredView<Seq<u8>>,
}

impl View for SetupFiles {
    type V = SetupFilesView;

    open spec fn view(&self) -> SetupFilesView {
        SetupFilesView {
            hook: self.hook@,
            config: self.config@,
            skill: self.skill@,
            agent: self.agent@,
        }
    }
}

/// The files of the skill, as they are to be installed.
#[derive(Debug)]
pub struct SkillFiles {
    pub skill: Vec<u8>,
    pub agent: Vec<u8>,
}

/// The view of [`SkillFiles`].
pub struct SkillFilesView {
    pub skill: Seq<u8>,
    pub agent: Seq<u8>,
}

impl View for SkillFiles {
    type V = SkillFilesView;

    open spec fn view(&self) -> SkillFilesView {
        SkillFilesView { skill: self.skill@, agent: self.agent@ }
    }
}

/// A hook file without hooks.
pub open spec fn bare_file() -> JsonView {
    JsonView::Members(
        Map::<Seq<char>, JsonView>::empty().insert(
            "hooks"@,
            JsonView::Members(Map::<Seq<char>, JsonView>::empty()),
        ),
    )
}

/// What a hook file holds. One that does not exist holds no hooks; a link is never followed.
pub open spec fn hook_root(path: Seq<char>, file: ObservedView<Seq<u8>>) -> Result<
    JsonView,
    Seq<char>,
> {
    match file {
        ObservedView::Missing => Ok(bare_file()),
        ObservedView::Symlink => Err("refusing to replace symlinked hook file "@ + path),
        ObservedView::Uninspected(error) => Err("inspect "@ + path + ": "@ + error),
        ObservedView::Unreadable(error) => Err("read "@ + path + ": "@ + error),
        ObservedView::Found(bytes) => match parsed_json(bytes) {
            Err(error) => Err("parse "@ + path + ": "@ + error),
            Ok(root) => if root is Members {
                Ok(root)
            } else {
                Err(path + " must contain a JSON object"@)
            },
        },
    }
}

pub(crate) fn context_error(context: &str, path: &str, error: &str) -> (text: String)
    ensures
        text@ == context@ + path@ + ": "@ + error@,
{
    let mut text = joined(context, path);
    text.append(": ");
    text.append(error);
    text
}

pub(crate) fn read_hook_root(path: &str, file: &Observed<Vec<u8>>) -> (result: Result<Value, String>)
    ensures
        match result {
            Ok(root) => hook_root(path@, file@) == Ok::<JsonView, Seq<char>>(json_of(root)),
            Err(error) => hook_root(path@, file@) == Err::<JsonView, Seq<char>>(error@),
        },
{
    match file {
        Observed::Missing => {
            let mut root = empty_object();
            put_member(&mut root, "hooks", empty_object());
            Ok(root)
        },
        Observed::Symlink => Err(joined("refusing to replace symlinked hook file ", path)),
        Observed::Uninspected(error) => Err(context_error("inspect ", path, error.as_str())),
        Observed::Unreadable(error) => Err(context_error("read ", path, error.as_str())),
        Observed::Found(bytes) => match parse_json(bytes.as_slice()) {
            Err(error) => Err(context_error("parse ", path, error.as_str())),
            Ok(root) => if root.is_object() {
                Ok(root)
            } else {
                Err(joined(path, " must contain a JSON object"))
            },
        },
    }
}

/// The bytes of a hook file, with a line end.
pub open spec fn file_bytes(root: JsonView) -> Result<Seq<u8>, Seq<char>> {
    match pretty_json(root) {
        Ok(bytes) => Ok(bytes.push(10)),
        Err(error) => Err("serialize hooks.json: "@ + error),
    }
}

pub(crate) fn write_file_bytes(root: &Value) -> (result: Result<Vec<u8>, String>)
    ensures
        bytes_outcome(result) == file_bytes(json_of(*root)),
        plain(json_of(*root), MAX_NESTING as nat) ==> (result matches Ok(bytes) && parsed_json(
            bytes@,
        ) == Ok::<JsonView, Seq<char>>(json_of(*root))),
{
    match write_pretty(root) {
        Ok(bytes) => {
            let mut bytes = bytes;
            bytes.push(10);
            Ok(bytes)
        },
        Err(error) => Err(joined("serialize hooks.json: ", error.as_str())),
    }
}

/// A change of one file, and the operation that makes it.
pub struct StepView {
    pub change: FileChangeView,
    pub operation: Option<FileOperationView>,
}

/// A change of one file, and the operation that makes it.
pub(crate) struct Step {
    pub(crate) change: FileChange,
    pub(crate) operation: Option<FileOperation>,
}

impl View for Step {
    type V = StepView;

    closed spec fn view(&self) -> StepView {
        StepView { change: self.change@, operation: optional(self.operation) }
    }
}

/// A step that changes nothing.
pub open spec fn idle(path: Seq<char>, action: ChangeKind) -> StepView {
    StepView { change: FileChangeView { path, action }, operation: None }
}

/// Installs a file. One that is as it should be stays as it is.
pub open spec fn installing(
    path: Seq<char>,
    expected: Seq<u8>,
    mode: u32,
    dry_run: bool,
    current: Option<Seq<u8>>,
) -> StepView {
    if current == Some(expected) {
        idle(path, ChangeKind::Unchanged)
    } else {
        StepView {
            change: FileChangeView {
                path,
                action: if current is Some {
                    ChangeKind::Updated
                } else {
                    ChangeKind::Created
                },
            },
            operation: if dry_run {
                None
            } else {
                Some(FileOperationView::Write { path, contents: expected, mode })
            },
        }
    }
}

pub(crate) fn same_bytes(left: &Vec<u8>, right: &Vec<u8>) -> (same: bool)
    ensures
        same == (left@ == right@),
{
    if left.len() != right.len() {
        return false;
    }
    let mut index: usize = 0;
    while index < left.len()
        invariant
            index <= left@.len(),
            left@.len() == right@.len(),
            forall|i: int| 0 <= i < index ==> left@[i] == right@[i],
        decreases left@.len() - index,
    {
        if left[index] != right[index] {
            return false;
        }
        index = index + 1;
    }
    assert(left@ =~= right@);
    true
}

pub(crate) fn install_file(
    path: &str,
    expected: Vec<u8>,
    mode: u32,
    dry_run: bool,
    current: Option<&Vec<u8>>,
) -> (step: Step)
    ensures
        step@ == installing(
            path@,
            expected@,
            mode,
            dry_run,
            match current {
                Some(bytes) => Some(bytes@),
                None => None,
            },
        ),
{
    let action = match current {
        Some(bytes) => if same_bytes(bytes, &expected) {
            ChangeKind::Unchanged
        } else {
            ChangeKind::Updated
        },
        None => ChangeKind::Created,
    };
    let operation = if dry_run || action == ChangeKind::Unchanged {
        None
    } else {
        Some(FileOperation::Write { path: path.to_owned(), contents: expected, mode })
    };
    Step { change: FileChange { path: path.to_owned(), action }, operation }
}

/// The bytes of a file that was found.
pub open spec fn found_bytes(file: ObservedView<Seq<u8>>) -> Option<Seq<u8>> {
    match file {
        ObservedView::Found(bytes) => Some(bytes),
        _ => None,
    }
}

/// What the Codex configuration holds. One that does not exist holds nothing; a link is never
/// followed.
pub open spec fn config_root(path: Seq<char>, file: ObservedView<Seq<char>>) -> Result<
    Map<Seq<char>, TomlView>,
    Seq<char>,
> {
    match file {
        ObservedView::Missing => Ok(Map::empty()),
        ObservedView::Symlink => Err("refusing to replace symlinked Codex config "@ + path),
        ObservedView::Uninspected(error) => Err("inspect "@ + path + ": "@ + error),
        ObservedView::Unreadable(error) => Err("read Codex config "@ + path + ": "@ + error),
        ObservedView::Found(text) => match parsed_toml(text) {
            Ok(root) => Ok(root),
            Err(error) => Err("parse Codex config "@ + path + ": "@ + error),
        },
    }
}

pub(crate) fn read_codex_config(path: &str, file: &Observed<String>) -> (result: Result<DocumentMut, String>)
    ensures
        match result {
            Ok(document) => config_root(path@, file@) matches Ok(root) && document_view(document)
                == TomlView::Section(root),
            Err(error) => config_root(path@, file@) == Err::<Map<Seq<char>, TomlView>, Seq<char>>(
                error@,
            ),
        },
{
    match file {
        Observed::Missing => Ok(DocumentMut::new()),
        Observed::Symlink => Err(joined("refusing to replace symlinked Codex config ", path)),
        Observed::Uninspected(error) => Err(context_error("inspect ", path, error.as_str())),
        Observed::Unreadable(error) => Err(
            context_error("read Codex config ", path, error.as_str()),
        ),
        Observed::Found(text) => match parse_document(text.as_str()) {
            Ok(document) => Ok(document),
            Err(error) => Err(context_error("parse Codex config ", path, error.as_str())),
        },
    }
}

/// The bytes of a configuration that was found.
pub open spec fn config_bytes(file: ObservedView<Seq<char>>) -> Option<Seq<u8>> {
    match file {
        ObservedView::Found(text) => Some(encode_utf8(text)),
        _ => None,
    }
}

/// Whether a step is one of those that write a configuration with this content. How a document is
/// laid out is its own affair.
pub open spec fn writes_config(
    step: StepView,
    path: Seq<char>,
    root: Map<Seq<char>, TomlView>,
    dry_run: bool,
    current: Option<Seq<u8>>,
) -> bool {
    exists|document: DocumentMut|
        #![trigger document_text(document)]
        document_view(document) == TomlView::Section(root) && step == installing(
            path,
            encode_utf8(document_text(document)),
            PRIVATE_MODE,
            dry_run,
            current,
        )
}

/// Whether a result is one of those that enabling a hook in the configuration may give.
pub open spec fn enables(
    result: Result<StepView, Seq<char>>,
    path: Seq<char>,
    file: ObservedView<Seq<char>>,
    old_keys: Seq<Seq<char>>,
    new_key: Seq<char>,
    dry_run: bool,
) -> bool {
    match config_root(path, file) {
        Err(error) => result == Err::<StepView, Seq<char>>(error),
        Ok(root) => match enabled(root, old_keys, new_key, path) {
            Err(error) => result == Err::<StepView, Seq<char>>(error),
            Ok(root) => result matches Ok(step) && writes_config(
                step,
                path,
                root,
                dry_run,
                config_bytes(file),
            ),
        },
    }
}

pub(crate) open(crate) spec fn step_outcome(result: Result<Step, String>) -> Result<StepView, Seq<char>> {
    match result {
        Ok(step) => Ok(step@),
        Err(error) => Err(error@),
    }
}

fn text_bytes(text: &str) -> (bytes: Vec<u8>)
    ensures
        bytes@ == encode_utf8(text@),
{
    let slice = text.as_bytes();
    let mut bytes: Vec<u8> = Vec::new();
    let mut index: usize = 0;
    while index < slice.len()
        invariant
            index <= slice@.len(),
            bytes@ == slice@.take(index as int),
        decreases slice@.len() - index,
    {
        bytes.push(slice[index]);
        index = index + 1;
        assert(bytes@ =~= slice@.take(index as int));
    }
    assert(slice@.take(index as int) =~= slice@);
    bytes
}

fn install_config(path: &str, document: &DocumentMut, file: &Observed<String>, dry_run: bool) -> (step:
    Step)
    requires
        document_view(*document) is Section,
    ensures
        step@ == installing(
            path@,
            encode_utf8(document_text(*document)),
            PRIVATE_MODE,
            dry_run,
            config_bytes(file@),
        ),
{
    let text = write_document(document);
    let expected = text_bytes(text.as_str());
    match file {
        Observed::Found(current) => {
            let current = text_bytes(current.as_str());
            install_file(path, expected, PRIVATE_MODE, dry_run, Some(&current))
        },
        _ => install_file(path, expected, PRIVATE_MODE, dry_run, None),
    }
}

fn enable_hook_state(
    path: &str,
    file: &Observed<String>,
    old_keys: &Vec<String>,
    new_key: &str,
    dry_run: bool,
) -> (result: Result<Step, String>)
    ensures
        enables(step_outcome(result), path@, file@, texts(old_keys@), new_key@, dry_run),
{
    let document = match read_codex_config(path, file) {
        Ok(document) => document,
        Err(error) => return Err(error),
    };
    let edited = match enable_document(document, path, old_keys, new_key) {
        Ok(edited) => edited,
        Err(error) => return Err(error),
    };
    let step = install_config(path, &edited, file, dry_run);
    assert(writes_config(
        step@,
        path@,
        document_view(edited)->Section_0,
        dry_run,
        config_bytes(file@),
    ));
    Ok(step)
}

/// Whether a result is one of those that removing hook states from the configuration may give.
pub open spec fn disables(
    result: Result<StepView, Seq<char>>,
    path: Seq<char>,
    file: ObservedView<Seq<char>>,
    keys: Seq<Seq<char>>,
    dry_run: bool,
) -> bool {
    match config_root(path, file) {
        Err(error) => result == Err::<StepView, Seq<char>>(error),
        Ok(root) => if file is Missing {
            result == Ok::<StepView, Seq<char>>(idle(path, ChangeKind::Missing))
        } else if !disabled(root, keys).1 {
            result == Ok::<StepView, Seq<char>>(idle(path, ChangeKind::Unchanged))
        } else {
            result matches Ok(step) && writes_config(
                step,
                path,
                disabled(root, keys).0,
                dry_run,
                config_bytes(file),
            )
        },
    }
}

pub(crate) fn idle_step(path: &str, action: ChangeKind) -> (step: Step)
    ensures
        step@ == idle(path@, action),
{
    Step { change: FileChange { path: path.to_owned(), action }, operation: None }
}

/// Removes a file.
pub open spec fn removing(path: Seq<char>, dry_run: bool) -> StepView {
    StepView {
        change: FileChangeView { path, action: ChangeKind::Removed },
        operation: if dry_run {
            None
        } else {
            Some(FileOperationView::Remove(path))
        },
    }
}

pub(crate) fn removing_step(path: &str, dry_run: bool) -> (step: Step)
    ensures
        step@ == removing(path@, dry_run),
{
    let operation = if dry_run {
        None
    } else {
        Some(FileOperation::Remove(path.to_owned()))
    };
    Step {
        change: FileChange { path: path.to_owned(), action: ChangeKind::Removed },
        operation,
    }
}

pub(crate) fn remove_hook_state(path: &str, file: &Observed<String>, keys: &Vec<String>, dry_run: bool) -> (result:
    Result<Step, String>)
    ensures
        disables(step_outcome(result), path@, file@, texts(keys@), dry_run),
{
    let mut document = match read_codex_config(path, file) {
        Ok(document) => document,
        Err(error) => return Err(error),
    };
    if let Observed::Missing = file {
        return Ok(idle_step(path, ChangeKind::Missing));
    }
    if !disable_document(&mut document, keys) {
        return Ok(idle_step(path, ChangeKind::Unchanged));
    }
    let step = install_config(path, &document, file, dry_run);
    assert(writes_config(
        step@,
        path@,
        document_view(document)->Section_0,
        dry_run,
        config_bytes(file@),
    ));
    Ok(step)
}

/// Installs a file of the skill.
pub open spec fn installing_skill(
    path: Seq<char>,
    expected: Seq<u8>,
    dry_run: bool,
    file: StoredView<Seq<u8>>,
) -> Result<StepView, Seq<char>> {
    match file {
        StoredView::Failed(error) => Err("read "@ + path + ": "@ + error),
        StoredView::Found(bytes) => Ok(
            installing(path, expected, SHARED_MODE, dry_run, Some(bytes)),
        ),
        StoredView::Missing => Ok(installing(path, expected, SHARED_MODE, dry_run, None)),
    }
}

fn copy_bytes(bytes: &Vec<u8>) -> (copy: Vec<u8>)
    ensures
        copy@ == bytes@,
{
    let mut copy: Vec<u8> = Vec::new();
    let mut index: usize = 0;
    while index < bytes.len()
        invariant
            index <= bytes@.len(),
            copy@ == bytes@.take(index as int),
        decreases bytes@.len() - index,
    {
        copy.push(bytes[index]);
        index = index + 1;
        assert(copy@ =~= bytes@.take(index as int));
    }
    assert(bytes@.take(index as int) =~= bytes@);
    copy
}

fn install_skill_file(path: &str, expected: &Vec<u8>, dry_run: bool, file: &Stored<Vec<u8>>) -> (result:
    Result<Step, String>)
    ensures
        step_outcome(result) == installing_skill(path@, expected@, dry_run, file@),
{
    match file {
        Stored::Failed(error) => Err(context_error("read ", path, error.as_str())),
        Stored::Found(bytes) => Ok(
            install_file(path, copy_bytes(expected), SHARED_MODE, dry_run, Some(bytes)),
        ),
        Stored::Missing => Ok(
            install_file(path, copy_bytes(expected), SHARED_MODE, dry_run, None),
        ),
    }
}

/// A plan that has been made up to here.
pub struct DraftView {
    pub operations: Seq<FileOperationView>,
    pub changes: Seq<FileChangeView>,
}

impl DraftView {
    /// A plan that does nothing.
    pub open spec fn empty() -> DraftView {
        DraftView { operations: seq![], changes: seq![] }
    }

    /// The plan with one more step.
    pub open spec fn then_step(self, step: StepView) -> DraftView {
        DraftView {
            operations: match step.operation {
                Some(operation) => self.operations.push(operation),
                None => self.operations,
            },
            changes: self.changes.push(step.change),
        }
    }

    /// The plan with one more operation that no report mentions.
    pub open spec fn then_silently(self, operation: FileOperationView) -> DraftView {
        DraftView { operations: self.operations.push(operation), ..self }
    }

    /// The plan, ended by an error.
    pub open spec fn failed(self, error: Seq<char>) -> SetupPlanView {
        SetupPlanView { operations: self.operations, result: Err(error) }
    }

    /// The plan, complete.
    pub open spec fn finished(self, scope: InstallScope, dry_run: bool) -> SetupPlanView {
        SetupPlanView {
            operations: self.operations,
            result: Ok(SetupReportView { scope, dry_run, changes: self.changes }),
        }
    }
}

pub(crate) struct Draft {
    pub(crate) operations: Vec<FileOperation>,
    pub(crate) changes: Vec<FileChange>,
}

impl View for Draft {
    type V = DraftView;

    closed spec fn view(&self) -> DraftView {
        DraftView {
            operations: operation_views(self.operations@),
            changes: change_views(self.changes@),
        }
    }
}

impl Draft {
    pub(crate) fn new() -> (draft: Draft)
        ensures
            draft@ == DraftView::empty(),
    {
        let draft = Draft { operations: Vec::new(), changes: Vec::new() };
        assert(operation_views(draft.operations@) =~= seq![]);
        assert(change_views(draft.changes@) =~= seq![]);
        draft
    }

    pub(crate) fn take(&mut self, step: Step)
        ensures
            final(self)@ == old(self)@.then_step(step@),
    {
        if let Some(operation) = step.operation {
            self.operations.push(operation);
            assert(operation_views(self.operations@) =~= operation_views(
                old(self).operations@,
            ).push(operation@));
        }
        self.changes.push(step.change);
        assert(change_views(self.changes@) =~= change_views(old(self).changes@).push(step.change@));
    }

    pub(crate) fn take_silently(&mut self, operation: FileOperation)
        ensures
            final(self)@ == old(self)@.then_silently(operation@),
    {
        self.operations.push(operation);
        assert(operation_views(self.operations@) =~= operation_views(old(self).operations@).push(
            operation@,
        ));
    }

    pub(crate) fn fail(self, error: String) -> (plan: SetupPlan)
        ensures
            plan@ == self@.failed(error@),
    {
        SetupPlan { operations: self.operations, result: Err(error) }
    }

    pub(crate) fn finish(self, scope: InstallScope, dry_run: bool) -> (plan: SetupPlan)
        ensures
            plan@ == self@.finished(scope, dry_run),
    {
        SetupPlan {
            operations: self.operations,
            result: Ok(SetupReport { scope, dry_run, changes: self.changes }),
        }
    }
}

/// The end of a plan: the two files of the skill.
pub open spec fn with_skill(
    draft: DraftView,
    target: SetupTargetView,
    dry_run: bool,
    skill: SkillFilesView,
    files: SetupFilesView,
) -> SetupPlanView {
    match installing_skill(target.skill_path(), skill.skill, dry_run, files.skill) {
        Err(error) => draft.failed(error),
        Ok(first) => match installing_skill(
            target.agent_path(),
            skill.agent,
            dry_run,
            files.agent,
        ) {
            Err(error) => draft.then_step(first).failed(error),
            Ok(second) => draft.then_step(first).then_step(second).finished(target.scope, dry_run),
        },
    }
}

/// The hook file that setup writes, and the state keys of the managed handler before and after.
pub open spec fn setup_file(target: SetupTargetView, files: SetupFilesView) -> Result<
    (Seq<u8>, Seq<Seq<char>>, Seq<char>),
    Seq<char>,
> {
    match hook_root(target.hook_path, files.hook) {
        Err(error) => Err(error),
        Ok(root) => match (
            keys_in_file(root, target.hook_path),
            merged(root, target.hook_command),
        ) {
            (Err(error), _) => Err(error),
            (_, Err(error)) => Err(error),
            (Ok(old_keys), Ok(file)) => match file_bytes(file) {
                Err(error) => Err(error),
                Ok(bytes) => Ok(
                    (bytes, old_keys, keys_in_file(file, target.hook_path)->Ok_0[0]),
                ),
            },
        },
    }
}

/// The plan of a setup. `config` is what became of the configuration.
pub open spec fn setup_plan(
    target: SetupTargetView,
    dry_run: bool,
    skill: SkillFilesView,
    files: SetupFilesView,
    config: Result<StepView, Seq<char>>,
) -> SetupPlanView {
    match setup_file(target, files) {
        Err(error) => DraftView::empty().failed(error),
        Ok((bytes, _, _)) => {
            let hooked = DraftView::empty().then_step(
                installing(
                    target.hook_path,
                    bytes,
                    target.hook_mode,
                    dry_run,
                    found_bytes(files.hook),
                ),
            );
            if target.codex_config_path is Some {
                match config {
                    Err(error) => hooked.failed(error),
                    Ok(step) => with_skill(hooked.then_step(step), target, dry_run, skill, files),
                }
            } else {
                with_skill(hooked, target, dry_run, skill, files)
            }
        },
    }
}

/// Whether a result is one of those that the configuration may give in a setup.
pub open spec fn setup_config(
    config: Result<StepView, Seq<char>>,
    target: SetupTargetView,
    dry_run: bool,
    files: SetupFilesView,
) -> bool {
    match (setup_file(target, files), target.codex_config_path) {
        (Ok((_, old_keys, new_key)), Some(path)) => enables(
            config,
            path,
            files.config,
            old_keys,
            new_key,
            dry_run,
        ),
        _ => true,
    }
}

fn finish_skill(
    draft: Draft,
    target: &SetupTarget,
    dry_run: bool,
    skill: &SkillFiles,
    files: &SetupFiles,
) -> (plan: SetupPlan)
    ensures
        plan@ == with_skill(draft@, target@, dry_run, skill@, files@),
{
    let mut draft = draft;
    let skill_path = join_path(target.skill_dir.as_str(), "SKILL.md");
    match install_skill_file(skill_path.as_str(), &skill.skill, dry_run, &files.skill) {
        Ok(step) => draft.take(step),
        Err(error) => return draft.fail(error),
    }
    let agent_path = join_path(target.skill_dir.as_str(), "agents/openai.yaml");
    match install_skill_file(agent_path.as_str(), &skill.agent, dry_run, &files.agent) {
        Ok(step) => draft.take(step),
        Err(error) => return draft.fail(error),
    }
    draft.finish(target.scope, dry_run)
}

/// Whether the hook file that setup writes reads as what was meant, where it holds integers as its
/// only numbers and is not nested beyond the limit of the reader.
pub open spec fn setup_reads_back(target: SetupTargetView, files: SetupFilesView) -> bool {
    match hook_root(target.hook_path, files.hook) {
        Ok(root) => match merged(root, target.hook_command) {
            Ok(file) => plain(file, MAX_NESTING as nat) ==> (file_bytes(file) matches Ok(bytes)
                && hook_root(target.hook_path, ObservedView::Found(bytes)) == Ok::<
                JsonView,
                Seq<char>,
            >(file)),
            Err(_) => true,
        },
        Err(_) => true,
    }
}

/// Plans a setup: the managed handler goes into the hook file, its state into the configuration,
/// and the skill into its directory.
pub fn setup(target: &SetupTarget, dry_run: bool, skill: &SkillFiles, files: &SetupFiles) -> (plan:
    SetupPlan)
    ensures
        exists|config: Result<StepView, Seq<char>>|
            #![trigger setup_plan(target@, dry_run, skill@, files@, config)]
            setup_config(config, target@, dry_run, files@) && plan@ == setup_plan(
                target@,
                dry_run,
                skill@,
                files@,
                config,
            ),
        setup_reads_back(target@, files@),
{
    let ghost nothing: Result<StepView, Seq<char>> = Err(seq![]);
    let mut draft = Draft::new();
    let mut root = match read_hook_root(target.hook_path.as_str(), &files.hook) {
        Ok(root) => root,
        Err(error) => {
            let plan = draft.fail(error);
            assert(plan@ == setup_plan(target@, dry_run, skill@, files@, nothing));
            return plan;
        },
    };
    let ghost given = json_of(root);
    let old_keys = match managed_hook_state_keys(&root, target.hook_path.as_str()) {
        Ok(keys) => keys,
        Err(error) => {
            let plan = draft.fail(error);
            assert(plan@ == setup_plan(target@, dry_run, skill@, files@, nothing));
            return plan;
        },
    };
    match merge_managed_hook(&mut root, target.hook_command.as_str()) {
        Ok(()) => {},
        Err(error) => {
            let plan = draft.fail(error);
            assert(plan@ == setup_plan(target@, dry_run, skill@, files@, nothing));
            return plan;
        },
    }
    proof {
        setup_leaves_one_managed_handler(given, target.hook_command@);
    }
    let new_keys = match managed_hook_state_keys(&root, target.hook_path.as_str()) {
        Ok(keys) => keys,
        Err(error) => return draft.fail(error),
    };
    let bytes = match write_file_bytes(&root) {
        Ok(bytes) => bytes,
        Err(error) => {
            let plan = draft.fail(error);
            assert(plan@ == setup_plan(target@, dry_run, skill@, files@, nothing));
            return plan;
        },
    };
    let current = match &files.hook {
        Observed::Found(bytes) => Some(bytes),
        _ => None,
    };
    draft.take(
        install_file(target.hook_path.as_str(), bytes, target.hook_mode, dry_run, current),
    );
    assert(texts(new_keys@).len() == 1);
    if let Some(path) = &target.codex_config_path {
        let result = enable_hook_state(
            path.as_str(),
            &files.config,
            &old_keys,
            new_keys[0].as_str(),
            dry_run,
        );
        let ghost config = step_outcome(result);
        assert(setup_config(config, target@, dry_run, files@));
        match result {
            Ok(step) => draft.take(step),
            Err(error) => {
                let plan = draft.fail(error);
                assert(plan@ == setup_plan(target@, dry_run, skill@, files@, config));
                return plan;
            },
        }
        let plan = finish_skill(draft, target, dry_run, skill, files);
        assert(plan@ == setup_plan(target@, dry_run, skill@, files@, config));
        return plan;
    }
    let plan = finish_skill(draft, target, dry_run, skill, files);
    assert(plan@ == setup_plan(target@, dry_run, skill@, files@, nothing));
    plan
}

} // verus!
