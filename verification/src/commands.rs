//! Stable keys and codes of the command reports, and the small pieces of
//! text that several commands share.

use vstd::prelude::*;
use vstd::string::*;
use crate::diff::Change;
use crate::changes::{display_path, display_path_spec};
use crate::messages::{lines_view, plain, push_report_line, ArgView, Line, LineView, Message};
use crate::text::push_str;

verus! {

/// The translation key of a file state in a save preview.
pub open spec fn save_state_spec(change: Option<Change>) -> Seq<char> {
    match change {
        None => "save-preview-state-unchanged"@,
        Some(Change::Added) => "save-preview-state-added"@,
        Some(Change::Modified) => "save-preview-state-modified"@,
        Some(Change::Deleted) => "save-preview-state-deleted"@,
        Some(Change::TypeChanged) => "save-preview-state-type-changed"@,
        Some(Change::Untracked) => "save-preview-state-untracked"@,
        Some(Change::IntentToAdd) => "save-preview-state-intent-to-add"@,
        Some(Change::Conflict) => "save-preview-state-conflict"@,
    }
}

pub fn save_state_key(change: Option<Change>) -> (key: &'static str)
    ensures
        key@ == save_state_spec(change),
        key@ == match change {
            None => "save-preview-state-unchanged"@,
            Some(Change::Added) => "save-preview-state-added"@,
            Some(Change::Modified) => "save-preview-state-modified"@,
            Some(Change::Deleted) => "save-preview-state-deleted"@,
            Some(Change::TypeChanged) => "save-preview-state-type-changed"@,
            Some(Change::Untracked) => "save-preview-state-untracked"@,
            Some(Change::IntentToAdd) => "save-preview-state-intent-to-add"@,
            Some(Change::Conflict) => "save-preview-state-conflict"@,
        },
{
    match change {
        None => "save-preview-state-unchanged",
        Some(Change::Added) => "save-preview-state-added",
        Some(Change::Modified) => "save-preview-state-modified",
        Some(Change::Deleted) => "save-preview-state-deleted",
        Some(Change::TypeChanged) => "save-preview-state-type-changed",
        Some(Change::Untracked) => "save-preview-state-untracked",
        Some(Change::IntentToAdd) => "save-preview-state-intent-to-add",
        Some(Change::Conflict) => "save-preview-state-conflict",
    }
}

/// Why the semantic comparison could not be made.
#[derive(Clone, Copy, Debug, PartialEq, Eq, Structural)]
pub enum SemanticDiffError {
    Repository,
    ObjectModel,
    ProjectOutsideRepository,
}

/// The stable code of a failed semantic comparison in JSON documents.
pub fn semantic_error_code(error: &SemanticDiffError) -> (code: &'static str)
    ensures
        code@ == match *error {
            SemanticDiffError::Repository => "repository"@,
            SemanticDiffError::ObjectModel => "object-model"@,
            SemanticDiffError::ProjectOutsideRepository => "project-outside-repository"@,
        },
{
    match error {
        SemanticDiffError::Repository => "repository",
        SemanticDiffError::ObjectModel => "object-model",
        SemanticDiffError::ProjectOutsideRepository => "project-outside-repository",
    }
}

/// The translation key that explains why a save draft has no semantic part.
pub fn semantic_error_key(error: &SemanticDiffError) -> (key: &'static str)
    ensures
        key@ == match *error {
            SemanticDiffError::Repository => "semantic-unavailable-repository"@,
            SemanticDiffError::ObjectModel => "semantic-unavailable-object-model"@,
            SemanticDiffError::ProjectOutsideRepository => "semantic-unavailable-scope"@,
        },
{
    match error {
        SemanticDiffError::Repository => "semantic-unavailable-repository",
        SemanticDiffError::ObjectModel => "semantic-unavailable-object-model",
        SemanticDiffError::ProjectOutsideRepository => "semantic-unavailable-scope",
    }
}

/// Unicode isolation marks, which translations put around their arguments.
pub open spec fn is_isolation_mark(c: char) -> bool {
    c == '\u{2068}' || c == '\u{2069}'
}

/// Text without isolation marks.
pub open spec fn without_isolation_marks(text: Seq<char>) -> Seq<char>
    decreases text.len(),
{
    if text.len() == 0 {
        Seq::empty()
    } else {
        without_isolation_marks(text.drop_last()) + if is_isolation_mark(text.last()) {
            Seq::empty()
        } else {
            seq![text.last()]
        }
    }
}

/// A commit message draft is plain text: isolation marks are removed.
pub fn draft_text(value: &str) -> (text: String)
    ensures
        text@ == without_isolation_marks(value@),
{
    let n = value.unicode_len();
    let mut text = String::new();
    let mut i: usize = 0;
    while i < n
        invariant
            n == value@.len(),
            i <= n,
            text@ == without_isolation_marks(value@.subrange(0, i as int)),
        decreases n - i,
    {
        let c = value.get_char(i);
        if c != '\u{2068}' && c != '\u{2069}' {
            text.push(c);
        }
        proof {
            assert(value@.subrange(0, i + 1).drop_last() =~= value@.subrange(0, i as int));
            assert(text@ =~= without_isolation_marks(value@.subrange(0, i + 1)));
        }
        i = i + 1;
    }
    assert(value@.subrange(0, n as int) =~= value@);
    text
}

/// The repository operation that a start command runs.
#[derive(Clone, Copy, Debug, PartialEq, Eq, Structural)]
pub enum Operation {
    Fetch,
    Ancestry,
    UpdateBase,
    Switch,
}

/// A failed repository command: it could not be started or it failed.
#[derive(Clone, Copy, Debug, PartialEq, Eq, Structural)]
pub enum CommandError {
    Spawn { operation: Operation },
    Failed { operation: Operation },
}

/// The translation key of a failed repository command, chosen by its operation.
pub fn command_error_key(error: &CommandError) -> (key: &'static str)
    ensures
        key@ == match (match *error {
            CommandError::Spawn { operation } | CommandError::Failed { operation } => operation,
        }) {
            Operation::Fetch => "start-fetch-error"@,
            Operation::Ancestry => "start-ancestry-error"@,
            Operation::UpdateBase => "start-update-base-error"@,
            Operation::Switch => "start-switch-error"@,
        },
{
    let operation = match error {
        CommandError::Spawn { operation } | CommandError::Failed { operation } => *operation,
    };
    match operation {
        Operation::Fetch => "start-fetch-error",
        Operation::Ancestry => "start-ancestry-error",
        Operation::UpdateBase => "start-update-base-error",
        Operation::Switch => "start-switch-error",
    }
}

/// The configured choice of runner for the platform tool.
#[derive(Clone, Copy, Debug, PartialEq, Eq, Structural)]
pub enum RunnerKind {
    Auto,
    Host,
    Distrobox,
}

/// The runner preference that discovery of the platform tool follows.
#[derive(Clone, Copy, Debug, PartialEq, Eq, Structural)]
pub enum RunnerPreference {
    Auto,
    Host,
    Distrobox,
}

/// The preference that a configured runner stands for.
pub fn runner_preference(runner: RunnerKind) -> (preference: RunnerPreference)
    ensures
        preference == match runner {
            RunnerKind::Auto => RunnerPreference::Auto,
            RunnerKind::Host => RunnerPreference::Host,
            RunnerKind::Distrobox => RunnerPreference::Distrobox,
        },
{
    match runner {
        RunnerKind::Auto => RunnerPreference::Auto,
        RunnerKind::Host => RunnerPreference::Host,
        RunnerKind::Distrobox => RunnerPreference::Distrobox,
    }
}

/// Where a platform tool was found; paths are given as text.
pub enum ToolSource {
    Explicit(String),
    Path(String),
    Standard(String),
    Distrobox { container: String, path: String },
}

pub open spec fn source_text(source: ToolSource) -> Seq<char> {
    match source {
        ToolSource::Explicit(p) | ToolSource::Path(p) | ToolSource::Standard(p) => p@,
        ToolSource::Distrobox { container, path } => container@ + ":"@ + path@,
    }
}

/// The location of a platform tool: its path, or `container:path` inside a container.
pub fn source_label(source: &ToolSource) -> (label: String)
    ensures
        label@ == source_text(*source),
{
    match source {
        ToolSource::Explicit(path) | ToolSource::Path(path) | ToolSource::Standard(path) => path.clone(),
        ToolSource::Distrobox { container, path } => {
            let mut label = String::new();
            push_str(&mut label, container.as_str());
            push_str(&mut label, ":");
            push_str(&mut label, path.as_str());
            label
        },
    }
}

/// The outcome of one diagnostic check.
#[derive(Clone, Copy, Debug, PartialEq, Eq, Structural)]
pub enum CheckStatus {
    Pass,
    Warning,
    Fail,
    Skipped,
}

pub open spec fn marker_parts(status: CheckStatus) -> (Seq<char>, Seq<char>) {
    match status {
        CheckStatus::Pass => ("✓"@, "1;32"@),
        CheckStatus::Warning => ("!"@, "1;33"@),
        CheckStatus::Fail => ("✗"@, "1;31"@),
        CheckStatus::Skipped => ("–"@, "2;90"@),
    }
}

/// The mark of a check outcome, colored on a terminal.
pub fn style_marker(status: CheckStatus, styled: bool) -> (r: String)
    ensures
        r@ == if styled {
            "\x1b["@ + marker_parts(status).1 + "m"@ + marker_parts(status).0 + "\x1b[0m"@
        } else {
            marker_parts(status).0
        },
{
    let (marker, color) = match status {
        CheckStatus::Pass => ("✓", "1;32"),
        CheckStatus::Warning => ("!", "1;33"),
        CheckStatus::Fail => ("✗", "1;31"),
        CheckStatus::Skipped => ("–", "2;90"),
    };
    let mut r = String::new();
    if styled {
        push_str(&mut r, "\x1b[");
        push_str(&mut r, color);
        push_str(&mut r, "m");
        push_str(&mut r, marker);
        push_str(&mut r, "\x1b[0m");
    } else {
        push_str(&mut r, marker);
    }
    r
}

/// The scope of a diagnosis: all members of a workspace only when aggregated.
pub fn scope_kind(workspace: bool, aggregate: bool) -> (kind: &'static str)
    ensures
        kind@ == if workspace && aggregate {
            "workspace"@
        } else {
            "project"@
        },
{
    if workspace && aggregate {
        "workspace"
    } else {
        "project"
    }
}

/// A platform that was found: its version and where its tool is.
pub struct InstalledPlatform {
    pub version: String,
    pub source: ToolSource,
}

pub open spec fn platform_line_spec(p: InstalledPlatform) -> LineView {
    LineView::Verbatim(p.version@ + "\t"@ + source_text(p.source))
}

/// The platform list: one line per platform, its version and a tab before
/// its location, or a translated line that none was found.
pub open spec fn platform_list_spec(platforms: Seq<InstalledPlatform>) -> Seq<LineView> {
    if platforms.len() == 0 {
        seq![LineView::Translated(plain("platform-none"@))]
    } else {
        platforms.map_values(|p: InstalledPlatform| platform_line_spec(p))
    }
}

/// The lines of the platform list.
pub fn platform_list(platforms: &Vec<InstalledPlatform>) -> (lines: Vec<Line>)
    ensures
        lines_view(lines@) == platform_list_spec(platforms@),
{
    let mut lines: Vec<Line> = Vec::new();
    if platforms.len() == 0 {
        push_report_line(&mut lines, Line::Translated(Message::new("platform-none")));
        assert(lines_view(lines@) =~= platform_list_spec(platforms@));
        return lines;
    }
    let mut i: usize = 0;
    while i < platforms.len()
        invariant
            i <= platforms@.len(),
            lines_view(lines@) == platforms@.subrange(0, i as int).map_values(|p: InstalledPlatform| platform_line_spec(p)),
        decreases platforms.len() - i,
    {
        let p = &platforms[i];
        let mut text = String::new();
        push_str(&mut text, p.version.as_str());
        push_str(&mut text, "\t");
        let label = source_label(&p.source);
        push_str(&mut text, label.as_str());
        push_report_line(&mut lines, Line::Verbatim(text));
        assert(platforms@.subrange(0, i + 1) =~= platforms@.subrange(0, i as int).push(platforms@[i as int]));
        i = i + 1;
    }
    assert(platforms@.subrange(0, platforms@.len() as int) =~= platforms@);
    lines
}

pub open spec fn semantic_error_key_spec(error: SemanticDiffError) -> Seq<char> {
    match error {
        SemanticDiffError::Repository => "semantic-unavailable-repository"@,
        SemanticDiffError::ObjectModel => "semantic-unavailable-object-model"@,
        SemanticDiffError::ProjectOutsideRepository => "semantic-unavailable-scope"@,
    }
}

/// The note that a scope has no semantic analysis: the scope (the member's
/// name, or the project directory's name) and the translated reason.
pub fn semantic_unavailable_message(scope: &str, error: &SemanticDiffError) -> (m: Message)
    ensures
        m@ == plain("semantic-unavailable"@).with("scope"@, ArgView::Text(scope@)).with(
            "reason"@,
            ArgView::Translated(semantic_error_key_spec(*error)),
        ),
{
    Message::new("semantic-unavailable").text("scope", scope).translated("reason", semantic_error_key(error))
}

/// A file's escaped path, below the member's name when the file belongs to
/// a workspace member.
pub open spec fn fallback_path_spec(member: Option<Seq<char>>, path: Seq<u8>) -> Seq<char> {
    match member {
        Some(m) => m + "/"@ + display_path_spec(path),
        None => display_path_spec(path),
    }
}

/// A file's path as a report names it: the escaped path, below the
/// member's name where the file belongs to a workspace member.
pub fn member_path(member: Option<&str>, path: &[u8]) -> (text: String)
    ensures
        text@ == fallback_path_spec(
            match member {
                Some(n) => Some(n@),
                None => None,
            },
            path@,
        ),
{
    let shown = display_path(path);
    match member {
        Some(name) => {
            let mut text = String::new();
            push_str(&mut text, name);
            push_str(&mut text, "/");
            push_str(&mut text, shown.as_str());
            text
        },
        None => shown,
    }
}

/// The note that the analysis of one file fell back to a plain file
/// change, with the translated reason of the fallback.
pub fn semantic_fallback_message(member: Option<&str>, path: &[u8], reason_key: &'static str) -> (m: Message)
    ensures
        m@ == plain("semantic-fallback"@).with(
            "path"@,
            ArgView::Text(
                fallback_path_spec(
                    match member {
                        Some(n) => Some(n@),
                        None => None,
                    },
                    path@,
                ),
            ),
        ).with("reason"@, ArgView::Translated(reason_key@)),
{
    let text = member_path(member, path);
    Message::new("semantic-fallback").text("path", text.as_str()).translated("reason", reason_key)
}

/// The line of a draft that names a changed file without a semantic
/// change: its path, below the member's name in a workspace draft.
pub fn draft_file_message(member: Option<&str>, path: &[u8]) -> (m: Message)
    ensures
        m@ == plain("save-draft-file-change"@).with(
            "path"@,
            ArgView::Text(
                fallback_path_spec(
                    match member {
                        Some(n) => Some(n@),
                        None => None,
                    },
                    path@,
                ),
            ),
        ),
{
    let text = member_path(member, path);
    Message::new("save-draft-file-change").text("path", text.as_str())
}

} // verus!
