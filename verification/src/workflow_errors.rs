//! Messages of the task workflow commands (start, finish, switch, history):
//! what they did, why they failed, and the stable codes of switch failures.

use vstd::prelude::*;
use crate::commands::{command_error_key, CommandError, Operation};
use crate::messages::{count_value, plain, ArgView, Message, MessageView};
use crate::text::push_str;

verus! {

/// How a workflow policy refused a task.
#[derive(Clone, Copy, Debug, PartialEq, Eq, Structural)]
pub enum PolicyRefusal {
    /// The task name is invalid or names a protected branch.
    TaskInvalid,
    Other,
}

pub open spec fn operation_key(operation: Operation) -> Seq<char> {
    match operation {
        Operation::Fetch => "start-fetch-error"@,
        Operation::Ancestry => "start-ancestry-error"@,
        Operation::UpdateBase => "start-update-base-error"@,
        Operation::Switch => "start-switch-error"@,
    }
}

pub open spec fn command_key(error: CommandError) -> Seq<char> {
    match error {
        CommandError::Spawn { operation } | CommandError::Failed { operation } => operation_key(operation),
    }
}

pub open spec fn count_arg(n: usize) -> ArgView {
    ArgView::Number(
        if n <= i64::MAX {
            n as i64
        } else {
            i64::MAX
        },
    )
}

/// Why a task could not be started.
pub enum StartError {
    WorkflowNotConfigured,
    Policy(PolicyRefusal),
    Repository,
    ProjectOutsideRepository,
    DirtyWorkspace { files: usize },
    DetachedHead,
    UnbornHead,
    BaseBranchMissing { branch: String },
    RemoteBaseMissing { reference: String },
    TaskBranchExists { branch: String },
    BaseDiverged { branch: String, remote_reference: String },
    Command(CommandError),
}

pub open spec fn start_message_spec(error: StartError) -> MessageView {
    match error {
        StartError::WorkflowNotConfigured => plain("start-workflow-missing"@),
        StartError::Policy(PolicyRefusal::TaskInvalid) => plain("start-task-invalid"@),
        StartError::Policy(PolicyRefusal::Other) => plain("start-policy-error"@),
        StartError::Repository => plain("start-repository-error"@),
        StartError::ProjectOutsideRepository => plain("start-project-outside-repository"@),
        StartError::DirtyWorkspace { files } => plain("start-dirty-workspace"@).with("files"@, count_arg(files)),
        StartError::DetachedHead => plain("start-detached-head"@),
        StartError::UnbornHead => plain("start-unborn-head"@),
        StartError::BaseBranchMissing { branch } => plain("start-base-missing"@).with("branch"@, ArgView::Text(branch@)),
        StartError::RemoteBaseMissing { reference } => plain("start-remote-base-missing"@).with(
            "reference"@,
            ArgView::Text(reference@),
        ),
        StartError::TaskBranchExists { branch } => plain("start-branch-exists"@).with("branch"@, ArgView::Text(branch@)),
        StartError::BaseDiverged { branch, remote_reference } => plain("start-base-diverged"@).with(
            "branch"@,
            ArgView::Text(branch@),
        ).with("reference"@, ArgView::Text(remote_reference@)),
        StartError::Command(e) => plain(command_key(e)),
    }
}

/// The message of a task that could not be started.
pub fn start_error_message(error: &StartError) -> (m: Message)
    ensures
        m@ == start_message_spec(*error),
{
    match error {
        StartError::WorkflowNotConfigured => Message::new("start-workflow-missing"),
        StartError::Policy(PolicyRefusal::TaskInvalid) => Message::new("start-task-invalid"),
        StartError::Policy(PolicyRefusal::Other) => Message::new("start-policy-error"),
        StartError::Repository => Message::new("start-repository-error"),
        StartError::ProjectOutsideRepository => Message::new("start-project-outside-repository"),
        StartError::DirtyWorkspace { files } => Message::new("start-dirty-workspace").number("files", count_value(*files)),
        StartError::DetachedHead => Message::new("start-detached-head"),
        StartError::UnbornHead => Message::new("start-unborn-head"),
        StartError::BaseBranchMissing { branch } => Message::new("start-base-missing").text("branch", branch.as_str()),
        StartError::RemoteBaseMissing { reference } => Message::new("start-remote-base-missing").text(
            "reference",
            reference.as_str(),
        ),
        StartError::TaskBranchExists { branch } => Message::new("start-branch-exists").text("branch", branch.as_str()),
        StartError::BaseDiverged { branch, remote_reference } => Message::new("start-base-diverged").text(
            "branch",
            branch.as_str(),
        ).text("reference", remote_reference.as_str()),
        StartError::Command(e) => Message::new(command_error_key(e)),
    }
}

/// Why a task could not be finished.
pub enum FinishError {
    WorkflowNotConfigured,
    Policy,
    Repository,
    ProjectOutsideRepository,
    OperationInProgress,
    DirtyWorkspace { files: usize },
    DetachedHead,
    UnbornHead,
    NotTaskBranch,
    BaseBranchMissing { branch: String },
    RemoteBaseMissing { remote: String, url: String, reference: String },
    RemoteRequired { remote: String },
    RequirementReferenceMissing { reference: String },
    NotPublished { reference: String },
    NotIntegrated { reference: String },
    BaseDiverged { branch: String, remote_reference: String },
    Fetch { remote: String, url: String, reason: String },
    Ancestry,
    UpdateBase,
    Switch,
    DeleteBranch,
}

pub open spec fn finish_message_spec(error: FinishError) -> MessageView {
    match error {
        FinishError::WorkflowNotConfigured => plain("finish-workflow-missing"@),
        FinishError::Policy => plain("finish-policy-error"@),
        FinishError::Repository => plain("finish-repository-error"@),
        FinishError::ProjectOutsideRepository => plain("finish-project-outside-repository"@),
        FinishError::OperationInProgress => plain("finish-operation-in-progress"@),
        FinishError::DirtyWorkspace { files } => plain("finish-dirty-workspace"@).with("files"@, count_arg(files)),
        FinishError::DetachedHead => plain("finish-detached-head"@),
        FinishError::UnbornHead => plain("finish-unborn-head"@),
        FinishError::NotTaskBranch => plain("finish-not-task-branch"@),
        FinishError::BaseBranchMissing { branch } => plain("finish-base-missing"@).with("branch"@, ArgView::Text(branch@)),
        FinishError::RemoteBaseMissing { remote, url, reference } => plain("finish-remote-base-missing"@).with(
            "remote"@,
            ArgView::Text(remote@),
        ).with("url"@, ArgView::Text(url@)).with("reference"@, ArgView::Text(reference@)),
        FinishError::RemoteRequired { remote } => plain("finish-remote-required"@).with("remote"@, ArgView::Text(remote@)),
        FinishError::RequirementReferenceMissing { reference } => plain("finish-reference-missing"@).with(
            "reference"@,
            ArgView::Text(reference@),
        ),
        FinishError::NotPublished { reference } => plain("finish-not-published"@).with(
            "reference"@,
            ArgView::Text(reference@),
        ),
        FinishError::NotIntegrated { reference } => plain("finish-not-integrated"@).with(
            "reference"@,
            ArgView::Text(reference@),
        ),
        FinishError::BaseDiverged { branch, remote_reference } => plain("finish-base-diverged"@).with(
            "branch"@,
            ArgView::Text(branch@),
        ).with("reference"@, ArgView::Text(remote_reference@)),
        FinishError::Fetch { remote, url, reason } => plain("finish-fetch-error"@).with("remote"@, ArgView::Text(remote@)).with(
            "url"@,
            ArgView::Text(url@),
        ).with("reason"@, ArgView::Text(reason@)),
        FinishError::Ancestry => plain("finish-ancestry-error"@),
        FinishError::UpdateBase => plain("finish-update-base-error"@),
        FinishError::Switch => plain("finish-switch-error"@),
        FinishError::DeleteBranch => plain("finish-delete-error"@),
    }
}

/// The message of a task that could not be finished.
pub fn finish_error_message(error: &FinishError) -> (m: Message)
    ensures
        m@ == finish_message_spec(*error),
{
    match error {
        FinishError::WorkflowNotConfigured => Message::new("finish-workflow-missing"),
        FinishError::Policy => Message::new("finish-policy-error"),
        FinishError::Repository => Message::new("finish-repository-error"),
        FinishError::ProjectOutsideRepository => Message::new("finish-project-outside-repository"),
        FinishError::OperationInProgress => Message::new("finish-operation-in-progress"),
        FinishError::DirtyWorkspace { files } => Message::new("finish-dirty-workspace").number("files", count_value(*files)),
        FinishError::DetachedHead => Message::new("finish-detached-head"),
        FinishError::UnbornHead => Message::new("finish-unborn-head"),
        FinishError::NotTaskBranch => Message::new("finish-not-task-branch"),
        FinishError::BaseBranchMissing { branch } => Message::new("finish-base-missing").text("branch", branch.as_str()),
        FinishError::RemoteBaseMissing { remote, url, reference } => Message::new("finish-remote-base-missing").text(
            "remote",
            remote.as_str(),
        ).text("url", url.as_str()).text("reference", reference.as_str()),
        FinishError::RemoteRequired { remote } => Message::new("finish-remote-required").text("remote", remote.as_str()),
        FinishError::RequirementReferenceMissing { reference } => Message::new("finish-reference-missing").text(
            "reference",
            reference.as_str(),
        ),
        FinishError::NotPublished { reference } => Message::new("finish-not-published").text(
            "reference",
            reference.as_str(),
        ),
        FinishError::NotIntegrated { reference } => Message::new("finish-not-integrated").text(
            "reference",
            reference.as_str(),
        ),
        FinishError::BaseDiverged { branch, remote_reference } => Message::new("finish-base-diverged").text(
            "branch",
            branch.as_str(),
        ).text("reference", remote_reference.as_str()),
        FinishError::Fetch { remote, url, reason } => Message::new("finish-fetch-error").text("remote", remote.as_str()).text(
            "url",
            url.as_str(),
        ).text("reason", reason.as_str()),
        FinishError::Ancestry => Message::new("finish-ancestry-error"),
        FinishError::UpdateBase => Message::new("finish-update-base-error"),
        FinishError::Switch => Message::new("finish-switch-error"),
        FinishError::DeleteBranch => Message::new("finish-delete-error"),
    }
}

/// Why the working copy could not switch between a task and its base.
pub enum SwitchError {
    WorkflowNotConfigured,
    Policy(PolicyRefusal),
    Repository,
    ProjectOutsideRepository,
    /// A shelf failure, with the shelf's own stable code.
    Shelf { code: String },
    TargetCheckedOut { branch: String },
    TaskBranchMissing { branch: String },
    BaseBranchMissing { branch: String },
    Command,
}

pub open spec fn switch_message_spec(error: SwitchError) -> MessageView {
    match error {
        SwitchError::WorkflowNotConfigured => plain("switch-workflow-missing"@),
        SwitchError::Policy(PolicyRefusal::TaskInvalid) => plain("switch-task-invalid"@),
        SwitchError::Policy(PolicyRefusal::Other) => plain("switch-policy-error"@),
        SwitchError::Repository => plain("switch-repository-error"@),
        SwitchError::ProjectOutsideRepository => plain("switch-project-outside-repository"@),
        SwitchError::Shelf { code } => plain("shelf-error-"@ + code@),
        SwitchError::TargetCheckedOut { branch } => plain("switch-target-checked-out"@).with(
            "branch"@,
            ArgView::Text(branch@),
        ),
        SwitchError::TaskBranchMissing { branch } => plain("switch-task-branch-missing"@).with(
            "branch"@,
            ArgView::Text(branch@),
        ),
        SwitchError::BaseBranchMissing { branch } => plain("switch-base-branch-missing"@).with(
            "branch"@,
            ArgView::Text(branch@),
        ),
        SwitchError::Command => plain("switch-command-error"@),
    }
}

/// The message of a failed switch; a shelf failure is translated by its code.
pub fn switch_error_message(error: &SwitchError) -> (m: Message)
    ensures
        m@ == switch_message_spec(*error),
{
    match error {
        SwitchError::WorkflowNotConfigured => Message::new("switch-workflow-missing"),
        SwitchError::Policy(PolicyRefusal::TaskInvalid) => Message::new("switch-task-invalid"),
        SwitchError::Policy(PolicyRefusal::Other) => Message::new("switch-policy-error"),
        SwitchError::Repository => Message::new("switch-repository-error"),
        SwitchError::ProjectOutsideRepository => Message::new("switch-project-outside-repository"),
        SwitchError::Shelf { code } => {
            let mut key = String::new();
            push_str(&mut key, "shelf-error-");
            push_str(&mut key, code.as_str());
            Message::new(key.as_str())
        },
        SwitchError::TargetCheckedOut { branch } => Message::new("switch-target-checked-out").text("branch", branch.as_str()),
        SwitchError::TaskBranchMissing { branch } => Message::new("switch-task-branch-missing").text(
            "branch",
            branch.as_str(),
        ),
        SwitchError::BaseBranchMissing { branch } => Message::new("switch-base-branch-missing").text(
            "branch",
            branch.as_str(),
        ),
        SwitchError::Command => Message::new("switch-command-error"),
    }
}

pub open spec fn switch_code_spec(error: SwitchError) -> Seq<char> {
    match error {
        SwitchError::WorkflowNotConfigured => "workflow-missing"@,
        SwitchError::Policy(_) => "policy"@,
        SwitchError::Repository => "repository"@,
        SwitchError::ProjectOutsideRepository => "project-outside-repository"@,
        SwitchError::TaskBranchMissing { .. } => "task-branch-missing"@,
        SwitchError::BaseBranchMissing { .. } => "base-branch-missing"@,
        SwitchError::TargetCheckedOut { .. } => "target-checked-out"@,
        SwitchError::Shelf { code } => code@,
        SwitchError::Command => "command"@,
    }
}

/// The stable machine code of a failed switch; a shelf failure keeps the shelf's code.
pub fn switch_error_code(error: &SwitchError) -> (code: &str)
    ensures
        code@ == switch_code_spec(*error),
{
    match error {
        SwitchError::WorkflowNotConfigured => "workflow-missing",
        SwitchError::Policy(_) => "policy",
        SwitchError::Repository => "repository",
        SwitchError::ProjectOutsideRepository => "project-outside-repository",
        SwitchError::TaskBranchMissing { .. } => "task-branch-missing",
        SwitchError::BaseBranchMissing { .. } => "base-branch-missing",
        SwitchError::TargetCheckedOut { .. } => "target-checked-out",
        SwitchError::Shelf { code } => code.as_str(),
        SwitchError::Command => "command",
    }
}

/// Why the history could not be read.
#[derive(Clone, Copy, Debug, PartialEq, Eq, Structural)]
pub enum HistoryError {
    Policy,
    Repository,
    ProjectOutsideRepository,
}

/// The translation key of a history failure.
pub fn history_error_key(error: HistoryError) -> (key: &'static str)
    ensures
        key@ == match error {
            HistoryError::Policy => "history-policy-error"@,
            HistoryError::Repository => "history-repository-error"@,
            HistoryError::ProjectOutsideRepository => "history-project-outside-repository"@,
        },
{
    match error {
        HistoryError::Policy => "history-policy-error",
        HistoryError::Repository => "history-repository-error",
        HistoryError::ProjectOutsideRepository => "history-project-outside-repository",
    }
}

/// The message of a started task: the task, its new branch and the base it
/// starts from.
pub fn start_created_message(task: &str, branch: &str, base: &str) -> (m: Message)
    ensures
        m@ == plain("start-created"@).with("task"@, ArgView::Text(task@)).with("branch"@, ArgView::Text(branch@)).with(
            "base"@,
            ArgView::Text(base@),
        ),
{
    Message::new("start-created").text("task", task).text("branch", branch).text("base", base)
}

/// The message of a finished task, which says whether its branch was
/// deleted or kept.
pub fn finish_completed_message(task: &str, task_branch: &str, base: &str, branch_deleted: bool) -> (m: Message)
    ensures
        m@ == plain(
            if branch_deleted {
                "finish-completed-deleted"@
            } else {
                "finish-completed-preserved"@
            },
        ).with("task"@, ArgView::Text(task@)).with("task_branch"@, ArgView::Text(task_branch@)).with(
            "base"@,
            ArgView::Text(base@),
        ),
{
    let key = if branch_deleted {
        "finish-completed-deleted"
    } else {
        "finish-completed-preserved"
    };
    Message::new(key).text("task", task).text("task_branch", task_branch).text("base", base)
}

/// The message of a switch: a preview, the task made active, or the base
/// made active; the task is empty where there is none.
pub fn switch_outcome_message(dry_run: bool, task: Option<&str>, branch: &str) -> (m: Message)
    ensures
        m@ == plain(
            if dry_run {
                "switch-preview"@
            } else if task is Some {
                "switch-task-activated"@
            } else {
                "switch-base-activated"@
            },
        ).with(
            "task"@,
            ArgView::Text(
                match task {
                    Some(t) => t@,
                    None => Seq::empty(),
                },
            ),
        ).with("branch"@, ArgView::Text(branch@)),
{
    let key = if dry_run {
        "switch-preview"
    } else if task.is_some() {
        "switch-task-activated"
    } else {
        "switch-base-activated"
    };
    let task_text = match task {
        Some(t) => t,
        None => {
            proof {
                reveal_strlit("");
                assert(""@ =~= Seq::<char>::empty());
            }
            ""
        },
    };
    Message::new(key).text("task", task_text).text("branch", branch)
}

} // verus!
