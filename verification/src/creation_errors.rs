//! Why creating a project failed, by `new` or by `clone`, as chains of
//! messages: a failed rollback reports the failure that it undid after it.

use vstd::prelude::*;
use crate::diagnostics::{
    context_error_message, context_message_spec, project_error_message, project_message_spec,
    ContextDiscoveryError, DiscoveryError,
};
use crate::messages::{
    about_path, chain_before, chain_view, count_value, plain, ArgView, Message, MessageView,
};
use crate::doctor::{comma_joined, join_with_commas};
use crate::workflow_errors::count_arg;

verus! {

/// A failure of the network part of a clone.
#[derive(Clone, Copy, Debug, PartialEq, Eq, Structural)]
pub enum NetworkFailure {
    Prepare,
    RemoteName,
    Fetch,
    Checkout,
}

/// Why a clone failed.
pub enum CloneError {
    RepositoryUrl,
    LocalRepository { path: String },
    RemoteName,
    MissingDirectoryName,
    InvalidBase { path: String },
    InvalidDestination { path: String },
    AlreadyExists { path: String },
    Io { path: String },
    Network(NetworkFailure),
    IncompleteCheckout { collisions: usize, errors: usize },
    Validation(DiscoveryError),
    /// The clone at `path` could not be removed after it failed as
    /// `original` says.
    Rollback { path: String, original: Box<CloneError> },
}

fn single(m: Message) -> (chain: Vec<Message>)
    ensures
        chain_view(chain@) == seq![m@],
{
    let mut chain: Vec<Message> = Vec::new();
    chain.push(m);
    assert(chain_view(chain@) =~= seq![m@]);
    chain
}

/// The messages of a failed clone.
pub open spec fn clone_error_chain(error: CloneError) -> Seq<MessageView>
    decreases error,
{
    match error {
        CloneError::RepositoryUrl => seq![plain("clone-repository-invalid"@)],
        CloneError::LocalRepository { path } => seq![about_path("clone-local-repository-invalid"@, path@)],
        CloneError::RemoteName => seq![plain("clone-remote-invalid"@)],
        CloneError::MissingDirectoryName => seq![plain("clone-directory-required"@)],
        CloneError::InvalidBase { path } => seq![about_path("clone-base-invalid"@, path@)],
        CloneError::InvalidDestination { path } => seq![about_path("clone-destination-invalid"@, path@)],
        CloneError::AlreadyExists { path } => seq![about_path("clone-destination-exists"@, path@)],
        CloneError::Io { path } => seq![about_path("clone-io-error"@, path@)],
        CloneError::Network(NetworkFailure::Checkout) => seq![plain("clone-checkout-error"@)],
        CloneError::Network(_) => seq![plain("clone-fetch-error"@)],
        CloneError::IncompleteCheckout { collisions, errors } => seq![
            plain("clone-checkout-incomplete"@).with("collisions"@, count_arg(collisions)).with(
                "errors"@,
                count_arg(errors),
            ),
        ],
        CloneError::Validation(error) => seq![project_message_spec(error)],
        CloneError::Rollback { path, original } => seq![
            plain("clone-rollback-error"@).with("reason"@, ArgView::Next).with("path"@, ArgView::Text(path@)),
        ] + clone_error_chain(*original),
    }
}

/// The chain of messages that reports a failed clone.
pub fn clone_error_messages(error: &CloneError) -> (chain: Vec<Message>)
    ensures
        chain_view(chain@) == clone_error_chain(*error),
    decreases error,
{
    match error {
        CloneError::RepositoryUrl => single(Message::new("clone-repository-invalid")),
        CloneError::LocalRepository { path } => single(
            Message::new("clone-local-repository-invalid").text("path", path.as_str()),
        ),
        CloneError::RemoteName => single(Message::new("clone-remote-invalid")),
        CloneError::MissingDirectoryName => single(Message::new("clone-directory-required")),
        CloneError::InvalidBase { path } => single(Message::new("clone-base-invalid").text("path", path.as_str())),
        CloneError::InvalidDestination { path } => single(
            Message::new("clone-destination-invalid").text("path", path.as_str()),
        ),
        CloneError::AlreadyExists { path } => single(
            Message::new("clone-destination-exists").text("path", path.as_str()),
        ),
        CloneError::Io { path } => single(Message::new("clone-io-error").text("path", path.as_str())),
        CloneError::Network(failure) => match failure {
            NetworkFailure::Checkout => single(Message::new("clone-checkout-error")),
            _ => single(Message::new("clone-fetch-error")),
        },
        CloneError::IncompleteCheckout { collisions, errors } => single(
            Message::new("clone-checkout-incomplete").number("collisions", count_value(*collisions)).number(
                "errors",
                count_value(*errors),
            ),
        ),
        CloneError::Validation(error) => single(project_error_message(error)),
        CloneError::Rollback { path, original } => {
            let first = Message::new("clone-rollback-error").next("reason").text("path", path.as_str());
            chain_before(first, clone_error_messages(original))
        },
    }
}

/// Why creating a project, or enrolling it in a workspace, failed.
pub enum CreationError {
    InvalidDestination { path: String },
    AlreadyExists { path: String },
    Io { path: String },
    Template,
    Git,
    Validation(DiscoveryError),
    /// Enrolling the project in its workspace failed.
    Workspace,
    WorkspaceValidation(ContextDiscoveryError),
    WorkspaceMemberMissing { name: String },
    /// The project at `path` could not be removed after it failed as
    /// `original` says.
    Rollback { path: String, original: Box<CreationError> },
    /// The workspace files at `paths` could not be restored after the
    /// failure `original`.
    WorkspaceRollback { paths: Vec<String>, original: Box<CreationError> },
}

/// The messages of a failed creation, or nothing where the chain reaches a
/// failed enrollment in the workspace, which this library does not word.
pub open spec fn creation_error_chain(error: CreationError) -> Option<Seq<MessageView>>
    decreases error,
{
    match error {
        CreationError::InvalidDestination { path } => Some(seq![about_path("new-destination-invalid"@, path@)]),
        CreationError::AlreadyExists { path } => Some(seq![about_path("new-destination-exists"@, path@)]),
        CreationError::Io { path } => Some(seq![about_path("new-io-error"@, path@)]),
        CreationError::Template => Some(seq![plain("new-template-error"@)]),
        CreationError::Git => Some(seq![plain("new-git-error"@)]),
        CreationError::Validation(error) => Some(seq![project_message_spec(error)]),
        CreationError::Workspace => None,
        CreationError::WorkspaceValidation(error) => Some(seq![context_message_spec(error)]),
        CreationError::WorkspaceMemberMissing { name } => Some(
            seq![plain("workspace-onboarding-member-missing"@).with("name"@, ArgView::Text(name@))],
        ),
        CreationError::Rollback { path, original } => match creation_error_chain(*original) {
            Some(rest) => Some(
                seq![
                    plain("new-rollback-error"@).with("path"@, ArgView::Text(path@)).with("reason"@, ArgView::Next),
                ] + rest,
            ),
            None => None,
        },
        CreationError::WorkspaceRollback { paths, original } => match creation_error_chain(*original) {
            Some(rest) => Some(
                seq![
                    plain("new-rollback-error"@).with("path"@, ArgView::Text(comma_joined(paths@))).with(
                        "reason"@,
                        ArgView::Next,
                    ),
                ] + rest,
            ),
            None => None,
        },
    }
}

pub open spec fn chain_option_view(chain: Option<Vec<Message>>) -> Option<Seq<MessageView>> {
    match chain {
        Some(c) => Some(chain_view(c@)),
        None => None,
    }
}

/// The chain of messages that reports a failed creation; `None` where it
/// reaches a failed enrollment in the workspace.
pub fn creation_error_messages(error: &CreationError) -> (chain: Option<Vec<Message>>)
    ensures
        chain_option_view(chain) == creation_error_chain(*error),
    decreases error,
{
    match error {
        CreationError::InvalidDestination { path } => Some(
            single(Message::new("new-destination-invalid").text("path", path.as_str())),
        ),
        CreationError::AlreadyExists { path } => Some(
            single(Message::new("new-destination-exists").text("path", path.as_str())),
        ),
        CreationError::Io { path } => Some(single(Message::new("new-io-error").text("path", path.as_str()))),
        CreationError::Template => Some(single(Message::new("new-template-error"))),
        CreationError::Git => Some(single(Message::new("new-git-error"))),
        CreationError::Validation(error) => Some(single(project_error_message(error))),
        CreationError::Workspace => None,
        CreationError::WorkspaceValidation(error) => Some(single(context_error_message(error))),
        CreationError::WorkspaceMemberMissing { name } => Some(
            single(Message::new("workspace-onboarding-member-missing").text("name", name.as_str())),
        ),
        CreationError::Rollback { path, original } => match creation_error_messages(original) {
            Some(rest) => {
                let first = Message::new("new-rollback-error").text("path", path.as_str()).next("reason");
                Some(chain_before(first, rest))
            },
            None => None,
        },
        CreationError::WorkspaceRollback { paths, original } => match creation_error_messages(original) {
            Some(rest) => {
                let joined_paths = join_with_commas(paths);
                let first = Message::new("new-rollback-error").text("path", joined_paths.as_str()).next("reason");
                Some(chain_before(first, rest))
            },
            None => None,
        },
    }
}

} // verus!
