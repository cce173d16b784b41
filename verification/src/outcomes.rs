//! What the commands that change the working tree report: the result of
//! cleaning a build infobase, and the result or the failure of a save.

use vstd::prelude::*;
use vstd::string::*;
use vstd::utf8::*;
use crate::build_output::{controls_escaped, display_path};
use crate::messages::{
    about_path, chain_before, chain_view, count_value, line_view, plain, ArgView, Line,
    LineView, Message, MessageView,
};
use crate::text::{lossy_text, lossy_utf8, trim_text, trimmed};
use crate::workflow_errors::count_arg;

verus! {

/// What cleaning a build infobase found.
#[derive(Clone, Copy, Debug, PartialEq, Eq, Structural)]
pub enum CleanOutcome {
    Removed,
    AlreadyAbsent,
}

/// What was done to the infobase at `root`; the path is shown with its
/// control characters escaped.
pub open spec fn clean_detail_spec(root: Seq<char>, outcome: CleanOutcome) -> MessageView {
    plain(
        match outcome {
            CleanOutcome::Removed => "clean-removed"@,
            CleanOutcome::AlreadyAbsent => "clean-absent"@,
        },
    ).with("path"@, ArgView::Text(controls_escaped(root)))
}

/// The result of cleaning one project: for a workspace member, under the
/// member's name.
pub open spec fn clean_outcome_spec(name: Option<Seq<char>>, root: Seq<char>, outcome: CleanOutcome) -> LineView {
    match name {
        Some(name) => LineView::Chain(
            seq![
                plain("clean-member-result"@).with("name"@, ArgView::Text(name)).with("result"@, ArgView::Next),
                clean_detail_spec(root, outcome),
            ],
        ),
        None => LineView::Translated(clean_detail_spec(root, outcome)),
    }
}

/// The report line of a cleaned infobase.
pub fn clean_outcome_line(name: Option<&str>, root: &str, outcome: CleanOutcome) -> (line: Line)
    ensures
        line_view(line) == clean_outcome_spec(
            match name {
                Some(n) => Some(n@),
                None => None,
            },
            root@,
            outcome,
        ),
{
    let key = match outcome {
        CleanOutcome::Removed => "clean-removed",
        CleanOutcome::AlreadyAbsent => "clean-absent",
    };
    let shown = display_path(root);
    let detail = Message::new(key).text("path", shown.as_str());
    match name {
        Some(name) => {
            let member = Message::new("clean-member-result").text("name", name).next("result");
            let ghost detail_view = detail@;
            let mut rest: Vec<Message> = Vec::new();
            rest.push(detail);
            assert(chain_view(rest@) =~= seq![detail_view]);
            let ghost member_view = member@;
            let chain = chain_before(member, rest);
            assert(chain_view(chain@) =~= seq![member_view, detail_view]);
            Line::Chain(chain)
        },
        None => Line::Translated(detail),
    }
}

/// A project that could not be cleaned: a workspace member's failure names
/// the member, a lone project's failure is the reason alone.
pub fn clean_error_line(name: Option<&str>, reason: &str) -> (line: Line)
    ensures
        line_view(line) == match name {
            Some(n) => LineView::Translated(
                plain("clean-member-error"@).with("name"@, ArgView::Text(n@)).with("reason"@, ArgView::Text(reason@)),
            ),
            None => LineView::Verbatim(reason@),
        },
{
    match name {
        Some(name) => Line::Translated(Message::new("clean-member-error").text("name", name).text("reason", reason)),
        None => Line::Verbatim(reason.to_owned()),
    }
}

/// The repository operation that a save runs as a command.
#[derive(Clone, Copy, Debug, PartialEq, Eq, Structural)]
pub enum CommandOperation {
    Stage,
    Commit,
    /// Any other repository operation.
    Other,
}

/// A repository command of a save that failed.
pub enum CommandFailure {
    /// It could not be started, for this reason.
    Spawn { operation: CommandOperation, reason: String },
    /// It ran and failed with this exit status and error output.
    Failed { operation: CommandOperation, status: String, stderr: Vec<u8> },
}

/// Why a save failed.
pub enum SaveError {
    Repository,
    ProjectOutsideRepository,
    DetachedHead,
    NoChanges,
    Conflicts { files: usize },
    EmptyMessage,
    IndexSnapshot { path: String },
    Command(CommandFailure),
    /// The index could not be put back at `path` after the save failed as
    /// `original` says.
    IndexRestore { path: String, original: Box<SaveError> },
    CommitNotCreated,
}

pub open spec fn command_key_spec(operation: CommandOperation) -> Seq<char> {
    match operation {
        CommandOperation::Stage => "save-stage-error"@,
        CommandOperation::Commit => "save-commit-error"@,
        CommandOperation::Other => "save-repository-error"@,
    }
}

/// The reason of a failed command: the error of starting it, or its error
/// output without surrounding white space, or its exit status where that
/// output is blank.
pub open spec fn command_reason_spec(failure: CommandFailure) -> Seq<char> {
    match failure {
        CommandFailure::Spawn { reason, .. } => reason@,
        CommandFailure::Failed { status, stderr, .. } => {
            let output = trimmed(lossy_text(stderr@));
            if output.len() == 0 {
                status@
            } else {
                output
            }
        },
    }
}

pub open spec fn command_message_spec(failure: CommandFailure) -> MessageView {
    let operation = match failure {
        CommandFailure::Spawn { operation, .. } => operation,
        CommandFailure::Failed { operation, .. } => operation,
    };
    plain(command_key_spec(operation)).with("reason"@, ArgView::Text(command_reason_spec(failure)))
}

/// The messages of a failed save: one message, but for a failed
/// restoration of the index, whose reason is the failure that came first.
pub open spec fn save_error_chain(error: SaveError) -> Seq<MessageView>
    decreases error,
{
    match error {
        SaveError::Repository => seq![plain("save-repository-error"@)],
        SaveError::ProjectOutsideRepository => seq![plain("save-project-outside-repository"@)],
        SaveError::DetachedHead => seq![plain("save-detached-head"@)],
        SaveError::NoChanges => seq![plain("save-no-changes"@)],
        SaveError::Conflicts { files } => seq![plain("save-conflicts"@).with("files"@, count_arg(files))],
        SaveError::EmptyMessage => seq![plain("save-empty-message"@)],
        SaveError::IndexSnapshot { path } => seq![about_path("save-index-snapshot-error"@, path@)],
        SaveError::Command(failure) => seq![command_message_spec(failure)],
        SaveError::IndexRestore { path, original } => seq![
            plain("save-index-restore-error"@).with("reason"@, ArgView::Next).with("path"@, ArgView::Text(path@)),
        ] + save_error_chain(*original),
        SaveError::CommitNotCreated => seq![plain("save-commit-not-created"@)],
    }
}

/// The message of a failed repository command of a save.
pub fn command_message(failure: &CommandFailure) -> (m: Message)
    ensures
        m@ == command_message_spec(*failure),
{
    let (operation, reason) = match failure {
        CommandFailure::Spawn { operation, reason } => (*operation, reason.clone()),
        CommandFailure::Failed { operation, status, stderr } => {
            let output = lossy_utf8(stderr.as_slice());
            let output = trim_text(output.as_str());
            if output.unicode_len() == 0 {
                (*operation, status.clone())
            } else {
                (*operation, output)
            }
        },
    };
    let key = match operation {
        CommandOperation::Stage => "save-stage-error",
        CommandOperation::Commit => "save-commit-error",
        CommandOperation::Other => "save-repository-error",
    };
    Message::new(key).text("reason", reason.as_str())
}

fn single(m: Message) -> (chain: Vec<Message>)
    ensures
        chain_view(chain@) == seq![m@],
{
    let mut chain: Vec<Message> = Vec::new();
    chain.push(m);
    assert(chain_view(chain@) =~= seq![m@]);
    chain
}

/// The chain of messages that reports a failed save.
pub fn save_error_messages(error: &SaveError) -> (chain: Vec<Message>)
    ensures
        chain_view(chain@) == save_error_chain(*error),
    decreases error,
{
    match error {
        SaveError::Repository => single(Message::new("save-repository-error")),
        SaveError::ProjectOutsideRepository => single(Message::new("save-project-outside-repository")),
        SaveError::DetachedHead => single(Message::new("save-detached-head")),
        SaveError::NoChanges => single(Message::new("save-no-changes")),
        SaveError::Conflicts { files } => single(Message::new("save-conflicts").number("files", count_value(*files))),
        SaveError::EmptyMessage => single(Message::new("save-empty-message")),
        SaveError::IndexSnapshot { path } => single(Message::new("save-index-snapshot-error").text("path", path.as_str())),
        SaveError::Command(failure) => single(command_message(failure)),
        SaveError::IndexRestore { path, original } => {
            let first = Message::new("save-index-restore-error").next("reason").text("path", path.as_str());
            let rest = save_error_messages(original);
            chain_before(first, rest)
        },
        SaveError::CommitNotCreated => single(Message::new("save-commit-not-created")),
    }
}

/// The first seven bytes of a commit identifier, or all of a shorter one.
pub open spec fn short_commit_spec(id: Seq<u8>) -> Seq<u8> {
    if id.len() <= 7 {
        id
    } else {
        id.subrange(0, 7)
    }
}

/// The message of a created commit: how many files it holds and its short
/// identifier.
pub fn save_created_message(files: usize, commit: &str) -> (m: Message)
    requires
        commit.spec_bytes().len() <= 7 || is_char_boundary(commit.spec_bytes(), 7),
    ensures
        m@.key == "save-created"@,
        m@.args.len() == 2,
        m@.args[0] == ("files"@, count_arg(files)),
        m@.args[1].0 == "commit"@,
        m@.args[1].1 matches ArgView::Text(t) && encode_utf8(t) == short_commit_spec(commit.spec_bytes()),
{
    let bytes = commit.as_bytes();
    let short: &str = if bytes.len() <= 7 {
        commit
    } else {
        let parts = commit.split_at(7);
        let head: &str = parts.0;
        assert(head.spec_bytes() =~= commit.spec_bytes().subrange(0, 7));
        head
    };
    assert(short.spec_bytes() == short_commit_spec(commit.spec_bytes()));
    let m = Message::new("save-created").number("files", count_value(files)).text("commit", short);
    assert(m@.args[1].1 == ArgView::Text(short@));
    m
}

} // verus!
