use eska_cli::build_errors::{BuildSettingsError, RelativePathReason};
use eska_cli::commands::{CommandError, Operation};
use eska_cli::diagnostics::{
    global_config_outcome_message, GlobalConfigOutcome,
    config_message, context_error_message, global_config_message, io_message, manifest_message,
    project_error_message, workflow_message, ContextDiscoveryError, DiscoveryError,
    GlobalConfigError, IoKind, ManifestConfigError, PolicyError, ProjectConfigError,
    WorkspaceConfigError,
};
use eska_cli::messages::{count_value, Arg, Message};
use eska_cli::workflow_errors::{
    finish_completed_message, start_created_message, switch_outcome_message,
    finish_error_message, history_error_key, start_error_message, switch_error_code,
    switch_error_message, FinishError, HistoryError, PolicyRefusal, StartError, SwitchError,
};

fn text(value: &str) -> Arg {
    Arg::Text(value.to_owned())
}

fn message(key: &str, args: Vec<(&'static str, Arg)>) -> Message {
    Message { key: key.to_owned(), args }
}

#[test]
fn io_failures_translate_their_kind() {
    assert_eq!(
        io_message("/p/eska.toml", IoKind::PermissionDenied),
        message(
            "project-io-error",
            vec![("path", text("/p/eska.toml")), ("reason", Arg::Translated("project-io-permission-denied"))]
        )
    );
    let error = DiscoveryError::Io { path: "/p".to_owned(), kind: IoKind::NotADirectory };
    assert_eq!(project_error_message(&error).args[1], ("reason", Arg::Translated("project-io-not-directory")));
}

#[test]
fn configuration_failures_never_show_parser_wording() {
    assert_eq!(
        config_message("/p/eska.toml", &ProjectConfigError::Toml),
        message("project-config-invalid", vec![("path", text("/p/eska.toml"))])
    );
    assert_eq!(
        config_message(
            "/p/eska.toml",
            &ProjectConfigError::InvalidBuild(BuildSettingsError::InvalidArtifactsDirectory {
                path: "../out".to_owned(),
                reason: RelativePathReason::ContainsParentTraversal,
            })
        ),
        message("project-build-path-parent-traversal", vec![("path", text("../out"))])
    );
    assert_eq!(
        config_message("/p/eska.toml", &ProjectConfigError::UnknownWorkflow { value: "weird".to_owned() }),
        message("project-workflow-unknown", vec![("path", text("/p/eska.toml")), ("value", text("weird"))])
    );
    assert_eq!(
        workflow_message("/p/eska.toml", &PolicyError::MissingField { field: "base".to_owned() }),
        message("project-workflow-field-missing", vec![("path", text("/p/eska.toml")), ("field", text("base"))])
    );
    assert_eq!(
        workflow_message("/p/eska.toml", &PolicyError::Other).key,
        "project-workflow-invalid"
    );
}

#[test]
fn workspace_failures_name_their_members() {
    let nested = ContextDiscoveryError::NestedMembers { first: "a".to_owned(), second: "a/b".to_owned() };
    assert_eq!(
        context_error_message(&nested),
        message("workspace-members-nested", vec![("first", text("a")), ("second", text("a/b"))])
    );
    let manifest = ContextDiscoveryError::Manifest {
        path: "/w/eska.toml".to_owned(),
        source: ManifestConfigError::Workspace(WorkspaceConfigError::InvalidMemberPath {
            path: "/abs".to_owned(),
            reason: RelativePathReason::Absolute,
        }),
    };
    assert_eq!(
        context_error_message(&manifest),
        message("workspace-member-path-relative-required", vec![("path", text("/abs"))])
    );
    assert_eq!(
        manifest_message("/w/eska.toml", &ManifestConfigError::KindAmbiguous),
        message("manifest-kind-ambiguous", vec![("path", text("/w/eska.toml"))])
    );
    assert_eq!(
        context_error_message(&ContextDiscoveryError::ResolvedBuild),
        message("workspace-build-invalid", vec![])
    );
}

#[test]
fn machine_configuration_failures_keep_their_reason() {
    assert_eq!(
        global_config_message(&GlobalConfigError::Replace { path: "/c".to_owned(), reason: "busy".to_owned() }),
        message("config-io-error", vec![("path", text("/c")), ("reason", text("busy"))])
    );
    assert_eq!(global_config_message(&GlobalConfigError::EditorFailed), message("config-editor-failed", vec![]));
}

#[test]
fn workflow_command_failures() {
    assert_eq!(
        start_error_message(&StartError::DirtyWorkspace { files: 3 }),
        message("start-dirty-workspace", vec![("files", Arg::Number(3))])
    );
    assert_eq!(
        start_error_message(&StartError::Command(CommandError::Failed { operation: Operation::Fetch })),
        message("start-fetch-error", vec![])
    );
    assert_eq!(start_error_message(&StartError::Policy(PolicyRefusal::TaskInvalid)).key, "start-task-invalid");
    assert_eq!(
        finish_error_message(&FinishError::Fetch {
            remote: "origin".to_owned(),
            url: "git@host:erp".to_owned(),
            reason: "timeout".to_owned(),
        }),
        message(
            "finish-fetch-error",
            vec![("remote", text("origin")), ("url", text("git@host:erp")), ("reason", text("timeout"))]
        )
    );
    let shelf = SwitchError::Shelf { code: "conflict".to_owned() };
    assert_eq!(switch_error_message(&shelf), message("shelf-error-conflict", vec![]));
    assert_eq!(switch_error_code(&shelf), "conflict");
    assert_eq!(switch_error_code(&SwitchError::TargetCheckedOut { branch: "main".to_owned() }), "target-checked-out");
    assert_eq!(history_error_key(HistoryError::Repository), "history-repository-error");
    assert_eq!(count_value(usize::MAX), i64::MAX);
}

#[test]
fn configuration_outcomes_name_the_file_and_its_backup() {
    assert_eq!(
        global_config_outcome_message(&GlobalConfigOutcome::Existing { path: "/home/u/.config/eska/config.toml".to_owned() }),
        Message {
            key: "config-existing".to_owned(),
            args: vec![("path", Arg::Text("/home/u/.config/eska/config.toml".to_owned()))],
        }
    );
    assert_eq!(
        global_config_outcome_message(&GlobalConfigOutcome::Changed {
            path: "/c/config.toml".to_owned(),
            backup: "/c/config.toml.bak".to_owned(),
        }),
        Message {
            key: "config-updated".to_owned(),
            args: vec![
                ("path", Arg::Text("/c/config.toml".to_owned())),
                ("backup", Arg::Text("/c/config.toml.bak".to_owned())),
            ],
        }
    );
}

#[test]
fn workflow_outcomes_name_task_branch_and_base() {
    assert_eq!(
        start_created_message("TASK-1", "feature/TASK-1", "develop"),
        Message {
            key: "start-created".to_owned(),
            args: vec![("task", text("TASK-1")), ("branch", text("feature/TASK-1")), ("base", text("develop"))],
        }
    );
    assert_eq!(
        finish_completed_message("TASK-1", "feature/TASK-1", "develop", false).key,
        "finish-completed-preserved"
    );
    assert_eq!(
        finish_completed_message("TASK-1", "feature/TASK-1", "develop", true),
        Message {
            key: "finish-completed-deleted".to_owned(),
            args: vec![("task", text("TASK-1")), ("task_branch", text("feature/TASK-1")), ("base", text("develop"))],
        }
    );
    assert_eq!(switch_outcome_message(true, Some("T"), "feature/T").key, "switch-preview");
    assert_eq!(switch_outcome_message(false, Some("T"), "feature/T").key, "switch-task-activated");
    assert_eq!(
        switch_outcome_message(false, None, "develop"),
        Message {
            key: "switch-base-activated".to_owned(),
            args: vec![("task", text("")), ("branch", text("develop"))],
        }
    );
}

#[test]
fn diagnostics_localizes_io_reasons_without_relying_on_os_messages_or_permissions() {
    for (kind, reason) in [
        (IoKind::PermissionDenied, "project-io-permission-denied"),
        (IoKind::InvalidData, "project-io-invalid-data"),
        (IoKind::NotADirectory, "project-io-not-directory"),
        (IoKind::Other, "project-io-other"),
    ] {
        let error = DiscoveryError::Io { path: "fixture/eska.toml".to_owned(), kind };
        let message = project_error_message(&error);
        assert_eq!(message.key, "project-io-error");
        assert!(message.args.contains(&("path", text("fixture/eska.toml"))), "{message:?}");
        assert!(message.args.contains(&("reason", Arg::Translated(reason))), "{message:?}");
        assert!(!format!("{message:?}").contains("unlocalized operating system message"));
    }
}
