use eska_cli::creation_errors::{
    clone_error_messages, creation_error_messages, CloneError, CreationError, NetworkFailure,
};
use eska_cli::diagnostics::DiscoveryError;
use eska_cli::messages::{Arg, Message};

fn message(key: &str, args: Vec<(&'static str, Arg)>) -> Message {
    Message { key: key.to_owned(), args }
}

fn path(value: &str) -> (&'static str, Arg) {
    ("path", Arg::Text(value.to_owned()))
}

#[test]
fn failed_clone_rollback_reports_the_failure_it_undid() {
    let error = CloneError::Rollback {
        path: "/tmp/repo".to_owned(),
        original: Box::new(CloneError::IncompleteCheckout { collisions: 2, errors: 1 }),
    };
    assert_eq!(
        clone_error_messages(&error),
        vec![
            message("clone-rollback-error", vec![("reason", Arg::Next), path("/tmp/repo")]),
            message(
                "clone-checkout-incomplete",
                vec![("collisions", Arg::Number(2)), ("errors", Arg::Number(1))]
            ),
        ]
    );
}

#[test]
fn clone_network_failures_separate_checkout_from_fetch() {
    for failure in [NetworkFailure::Prepare, NetworkFailure::RemoteName, NetworkFailure::Fetch] {
        assert_eq!(
            clone_error_messages(&CloneError::Network(failure)),
            vec![message("clone-fetch-error", vec![])]
        );
    }
    assert_eq!(
        clone_error_messages(&CloneError::Network(NetworkFailure::Checkout)),
        vec![message("clone-checkout-error", vec![])]
    );
    assert_eq!(
        clone_error_messages(&CloneError::Validation(DiscoveryError::ConfigNotFile {
            path: "/p/eska.toml".to_owned()
        })),
        vec![message("project-config-not-file", vec![path("/p/eska.toml")])]
    );
}

#[test]
fn workspace_rollback_joins_the_paths_it_could_not_restore() {
    let error = CreationError::WorkspaceRollback {
        paths: vec!["/w/eska-workspace.toml".to_owned(), "/w/.gitignore".to_owned()],
        original: Box::new(CreationError::Rollback {
            path: "/w/app".to_owned(),
            original: Box::new(CreationError::AlreadyExists { path: "/w/app".to_owned() }),
        }),
    };
    assert_eq!(
        creation_error_messages(&error),
        Some(vec![
            message(
                "new-rollback-error",
                vec![path("/w/eska-workspace.toml, /w/.gitignore"), ("reason", Arg::Next)]
            ),
            message("new-rollback-error", vec![path("/w/app"), ("reason", Arg::Next)]),
            message("new-destination-exists", vec![path("/w/app")]),
        ])
    );
}

#[test]
fn creation_chain_through_enrollment_is_not_worded() {
    let error = CreationError::Rollback {
        path: "/w/app".to_owned(),
        original: Box::new(CreationError::Workspace),
    };
    assert_eq!(creation_error_messages(&error), None);
    assert_eq!(
        creation_error_messages(&CreationError::WorkspaceMemberMissing { name: "app".to_owned() }),
        Some(vec![message(
            "workspace-onboarding-member-missing",
            vec![("name", Arg::Text("app".to_owned()))]
        )])
    );
}
