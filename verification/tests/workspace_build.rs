use eska_cli::build_errors::{BuildError, BuildExecutionError, BuildStage};
use eska_cli::workspace_build::{
    entry_status_name, ArtifactEntry, EntryStatus, MemberOutcome, WorkspaceBuildReport,
};

fn built(path: &str) -> MemberOutcome {
    MemberOutcome::Built(ArtifactEntry {
        artifact_type: "extension".to_owned(),
        path: path.to_owned(),
        path_encoding: "utf-8".to_owned(),
    })
}

fn run_failure(interrupted: bool) -> MemberOutcome {
    MemberOutcome::Failed(BuildExecutionError::Build(BuildError::Run {
        stage: BuildStage::ImportSources,
        interrupted,
        reason: "signal".to_owned(),
    }))
}

fn remaining(names: &[&str]) -> Vec<(String, String)> {
    names.iter().map(|name| ((*name).to_owned(), "8.3.24".to_owned())).collect()
}

#[test]
fn members_are_reported_in_build_order() {
    let mut report = WorkspaceBuildReport::new();
    assert!(!report.record("core", "8.3.24", built("/w/core.cfe"), &remaining(&["ext"])));
    assert!(!report.record("ext", "8.3.24", run_failure(false), &remaining(&[])));
    assert_eq!(report.entries.len(), 2);
    assert_eq!(report.entries[0].status, EntryStatus::Success);
    assert_eq!(report.entries[0].artifact.as_ref().map(|a| a.path.as_str()), Some("/w/core.cfe"));
    assert_eq!(report.entries[0].error, None);
    assert_eq!(report.entries[1].status, EntryStatus::Failed);
    assert_eq!(report.entries[1].error, Some(("process-error", Some("import-sources"))));
    assert!(report.failed());
}

#[test]
fn an_interrupted_build_reports_the_rest_as_not_run() {
    let mut report = WorkspaceBuildReport::new();
    assert!(report.record("core", "8.3.24", run_failure(true), &remaining(&["ext", "tools"])));
    let statuses: Vec<_> = report.entries.iter().map(|entry| entry.status).collect();
    assert_eq!(statuses, [EntryStatus::Failed, EntryStatus::Skipped, EntryStatus::Skipped]);
    assert_eq!(report.entries[0].error, Some(("interrupted", Some("import-sources"))));
    assert_eq!(report.entries[2].name, "tools");
    assert_eq!(report.entries[2].error, Some(("not-run-after-interrupt", None)));
    assert!(report.failed());
    assert_eq!(entry_status_name(EntryStatus::Skipped), "skipped");
}

#[test]
fn a_report_of_successes_does_not_fail() {
    let mut report = WorkspaceBuildReport::new();
    report.record("core", "8.3.24", built("/w/a.cf"), &remaining(&[]));
    assert!(!report.failed());
    assert_eq!(entry_status_name(EntryStatus::Success), "success");
    assert_eq!(entry_status_name(EntryStatus::Failed), "failed");
}
