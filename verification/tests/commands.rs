use eska_cli::build_errors::{
    build_error_message, execution_error_code, execution_error_message, execution_error_stage,
    execution_was_interrupted, manifest_error_message, plan_error_code, plan_error_message,
    platform_version_error_message, selection_error_code, selection_error_message, stage_key,
    tool_error_code, tool_error_message, BuildError, BuildExecutionError, BuildSettingsError,
    BuildStage, ManagedInfobaseError, ManifestError, PlanError, RelativePathReason,
    SelectionError, ToolError,
};
use eska_cli::messages::{Arg, Line, Message};
use eska_cli::commands::{
    draft_file_message, member_path, semantic_fallback_message, semantic_unavailable_message, platform_list, InstalledPlatform, command_error_key, draft_text, runner_preference, save_state_key, scope_kind,
    semantic_error_code, semantic_error_key, source_label, style_marker, CheckStatus,
    CommandError, Operation, RunnerKind, RunnerPreference, SemanticDiffError, ToolSource,
};
use eska_cli::diff::Change;

#[test]
fn semantic_error_document_codes() {
    assert_eq!(
        semantic_error_code(&SemanticDiffError::ProjectOutsideRepository),
        "project-outside-repository"
    );
    assert_eq!(semantic_error_code(&SemanticDiffError::ObjectModel), "object-model");
    assert_eq!(semantic_error_key(&SemanticDiffError::Repository), "semantic-unavailable-repository");
}

#[test]
fn build_failure_codes() {
    assert_eq!(
        selection_error_code(&SelectionError::UnknownProject { name: "erp".to_owned() }),
        "project-not-found"
    );
    assert_eq!(
        plan_error_code(&PlanError::UnexpectedExtension {
            path: "out.txt".to_owned(),
            expected: "cf".to_owned()
        }),
        "output-extension-invalid"
    );
    assert_eq!(
        tool_error_code(&ToolError::ScanCommandFailed {
            container: "box".to_owned(),
            stderr: String::new()
        }),
        "platform-scan-failed"
    );
    assert_eq!(
        tool_error_code(&ToolError::Scan { path: "/opt".to_owned(), reason: String::new() }),
        "platform-scan-failed"
    );
    let interrupted = BuildExecutionError::Build(BuildError::Run {
        stage: BuildStage::ImportSources,
        interrupted: true,
        reason: "Interrupted".to_owned(),
    });
    let failed = BuildExecutionError::Build(BuildError::Run {
        stage: BuildStage::CreateInfobase,
        interrupted: false,
        reason: "Spawn".to_owned(),
    });
    assert_eq!(execution_error_code(&interrupted), "interrupted");
    assert_eq!(execution_error_code(&failed), "process-error");
    assert!(execution_was_interrupted(&interrupted));
    assert!(!execution_was_interrupted(&failed));
    assert_eq!(execution_error_stage(&interrupted), Some("import-sources"));
    let output = BuildExecutionError::Output("disk full".to_owned());
    assert_eq!(execution_error_code(&output), "output-write");
    assert_eq!(execution_error_stage(&output), None);
    let locked = BuildExecutionError::Build(BuildError::ManagedInfobase(ManagedInfobaseError::Locked));
    assert_eq!(execution_error_code(&locked), "infobase-locked");
    assert_eq!(execution_error_stage(&locked), None);
    let write = BuildExecutionError::Build(BuildError::Manifest(ManifestError::Write {
        path: "build.json".to_owned(),
        reason: "denied".to_owned(),
    }));
    assert_eq!(execution_error_code(&write), "manifest-write");
    assert_eq!(execution_error_stage(&write), Some("manifest"));
    let snapshot = BuildExecutionError::Build(BuildError::Manifest(ManifestError::SnapshotIo {
        path: "src".to_owned(),
        reason: "denied".to_owned(),
    }));
    assert_eq!(execution_error_stage(&snapshot), Some("snapshot"));
    assert_eq!(stage_key(BuildStage::CreateInfobase), "build-stage-create-infobase");
}

#[test]
fn command_keys_and_labels() {
    assert_eq!(save_state_key(None), "save-preview-state-unchanged");
    assert_eq!(save_state_key(Some(Change::IntentToAdd)), "save-preview-state-intent-to-add");
    assert_eq!(
        command_error_key(&CommandError::Failed { operation: Operation::UpdateBase }),
        "start-update-base-error"
    );
    assert_eq!(runner_preference(RunnerKind::Distrobox), RunnerPreference::Distrobox);
    assert_eq!(
        source_label(&ToolSource::Distrobox { container: "box".to_owned(), path: "/opt/ibcmd".to_owned() }),
        "box:/opt/ibcmd"
    );
    assert_eq!(source_label(&ToolSource::Path("/usr/bin/ibcmd".to_owned())), "/usr/bin/ibcmd");
    assert_eq!(draft_text("\u{2068}Каталог\u{2069} изменён"), "Каталог изменён");
    assert_eq!(style_marker(CheckStatus::Skipped, true), "\x1b[2;90m–\x1b[0m");
    assert_eq!(style_marker(CheckStatus::Warning, false), "!");
    assert_eq!(scope_kind(true, true), "workspace");
    assert_eq!(scope_kind(true, false), "project");
}

fn text(value: &str) -> Arg {
    Arg::Text(value.to_owned())
}

#[test]
fn build_failures_have_messages_with_their_details() {
    let failed = BuildError::CommandFailed { stage: BuildStage::ImportSources, stderr: "bad XML".to_owned() };
    assert_eq!(
        build_error_message(&failed),
        Some(Message {
            key: "build-command-failed".to_owned(),
            args: vec![
                ("stage", Arg::Translated("build-stage-import-sources")),
                ("reason", text("bad XML")),
            ],
        })
    );
    assert_eq!(
        execution_error_message(&BuildExecutionError::Build(failed)),
        Some(Message {
            key: "build-command-failed-streamed".to_owned(),
            args: vec![("stage", Arg::Translated("build-stage-import-sources"))],
        })
    );
    let interrupted = BuildError::Run { stage: BuildStage::CreateInfobase, interrupted: true, reason: "Interrupted".to_owned() };
    assert_eq!(build_error_message(&interrupted).unwrap().key, "build-interrupted");
    let restore = BuildError::Restore { path: "/out/a.cf".to_owned(), reason: "denied".to_owned() };
    assert_eq!(
        build_error_message(&restore),
        Some(Message {
            key: "build-filesystem-error".to_owned(),
            args: vec![("path", text("/out/a.cf")), ("reason", text("denied"))],
        })
    );
    assert_eq!(build_error_message(&BuildError::ManagedInfobase(ManagedInfobaseError::Locked)), None);
    assert_eq!(
        execution_error_message(&BuildExecutionError::Output("disk full".to_owned())),
        Some(Message { key: "build-output-write-error".to_owned(), args: vec![("reason", text("disk full"))] })
    );
    assert_eq!(
        manifest_error_message(&ManifestError::Serialize),
        Message { key: "build-manifest-serialize-error".to_owned(), args: vec![] }
    );
    assert_eq!(
        plan_error_message(&PlanError::UnexpectedExtension { path: "a.txt".to_owned(), expected: "cfe".to_owned() }),
        Message { key: "build-output-extension".to_owned(), args: vec![("path", text("a.txt")), ("extension", text("cfe"))] }
    );
    assert_eq!(
        platform_version_error_message(&BuildSettingsError::InvalidArtifactsDirectory {
            path: "/abs".to_owned(),
            reason: RelativePathReason::Absolute,
        }),
        Message { key: "build-platform-version-error".to_owned(), args: vec![] }
    );
}

#[test]
fn selection_and_tool_failures_have_messages() {
    assert_eq!(
        selection_error_message(&SelectionError::SingleProjectRequired),
        Message { key: "project-selector-single-required".to_owned(), args: vec![] }
    );
    assert_eq!(
        selection_error_message(&SelectionError::UnknownProject { name: "erp".to_owned() }),
        Message { key: "project-selector-unknown".to_owned(), args: vec![("name", text("erp"))] }
    );
    let mismatch = ToolError::VersionMismatch {
        expected: "8.3.24".to_owned(),
        actual: "8.3.23".to_owned(),
        source: ToolSource::Distrobox { container: "onec".to_owned(), path: "/opt/ibcmd".to_owned() },
    };
    assert_eq!(
        tool_error_message(&mismatch),
        Message {
            key: "build-version-mismatch".to_owned(),
            args: vec![
                ("expected", text("8.3.24")),
                ("actual", text("8.3.23")),
                ("source", text("onec:/opt/ibcmd")),
            ],
        }
    );
}

#[test]
fn platform_list_shows_version_and_location_or_that_none_was_found() {
    assert_eq!(
        platform_list(&vec![]),
        vec![Line::Translated(Message { key: "platform-none".to_owned(), args: vec![] })]
    );
    let platforms = vec![
        InstalledPlatform {
            version: "8.3.24.1342".to_owned(),
            source: ToolSource::Standard("/opt/1cv8/x86_64/8.3.24.1342/ibcmd".to_owned()),
        },
        InstalledPlatform {
            version: "8.3.25.1000".to_owned(),
            source: ToolSource::Distrobox { container: "onec".to_owned(), path: "/opt/ibcmd".to_owned() },
        },
    ];
    assert_eq!(
        platform_list(&platforms),
        vec![
            Line::Verbatim("8.3.24.1342\t/opt/1cv8/x86_64/8.3.24.1342/ibcmd".to_owned()),
            Line::Verbatim("8.3.25.1000\tonec:/opt/ibcmd".to_owned()),
        ]
    );
}

#[test]
fn semantic_notes_name_the_scope_or_member_path() {
    assert_eq!(
        semantic_unavailable_message("app", &SemanticDiffError::ObjectModel),
        Message {
            key: "semantic-unavailable".to_owned(),
            args: vec![
                ("scope", Arg::Text("app".to_owned())),
                ("reason", Arg::Translated("semantic-unavailable-object-model")),
            ],
        }
    );
    assert_eq!(
        semantic_fallback_message(Some("core"), b"src/Catalogs/Items.xml", "semantic-fallback-unsupported"),
        Message {
            key: "semantic-fallback".to_owned(),
            args: vec![
                ("path", Arg::Text("core/src/Catalogs/Items.xml".to_owned())),
                ("reason", Arg::Translated("semantic-fallback-unsupported")),
            ],
        }
    );
    assert_eq!(
        semantic_fallback_message(None, b"a.xml", "k").args[0],
        ("path", Arg::Text("a.xml".to_owned()))
    );
}

#[test]
fn draft_files_are_named_below_their_member() {
    assert_eq!(member_path(Some("core"), b"src/a\tb.bsl"), "core/\"src/a\\tb.bsl\"");
    assert_eq!(
        draft_file_message(Some("core"), b"src/Module.bsl"),
        Message {
            key: "save-draft-file-change".to_owned(),
            args: vec![("path", Arg::Text("core/src/Module.bsl".to_owned()))],
        }
    );
    assert_eq!(draft_file_message(None, b"x.txt").args[0], ("path", Arg::Text("x.txt".to_owned())));
}
