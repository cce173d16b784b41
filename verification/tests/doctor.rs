use eska_cli::commands::CheckStatus;
use eska_cli::doctor::{
    check_label_key, check_message, document_status, fix_key, has_failures, machine_config_check,
    project_config_failure, render_doctor, selection_failure, summarize, summary_message, Check, CheckLine,
    Summary,
};
use eska_cli::messages::{Arg, Message};

#[test]
fn check_messages_name_their_code_and_findings() {
    let check = Check {
        id: "platform.version".to_owned(),
        status: CheckStatus::Fail,
        project: None,
        code: "version-mismatch".to_owned(),
        expected: Some("8.3.24".to_owned()),
        actual: None,
        source: Some("/opt/1cv8".to_owned()),
        commands: vec!["build".to_owned(), "patch".to_owned()],
        remediation: Some("install-platform".to_owned()),
    };
    assert_eq!(
        check_message(&check),
        Message {
            key: "doctor-code-version-mismatch".to_owned(),
            args: vec![
                ("expected", Arg::Text("8.3.24".to_owned())),
                ("actual", Arg::Text("—".to_owned())),
                ("source", Arg::Text("/opt/1cv8".to_owned())),
                ("commands", Arg::Text("build, patch".to_owned())),
            ],
        }
    );
    assert_eq!(check_label_key(&check.id), "doctor-check-platform-version");
    assert_eq!(fix_key("install-platform"), "doctor-fix-install-platform");
}

#[test]
fn diagnosis_lists_checks_then_the_summary() {
    let checks = vec![
        CheckLine {
            status: CheckStatus::Pass,
            label: "Git".to_owned(),
            project: None,
            message: "found".to_owned(),
            fix: None,
        },
        CheckLine {
            status: CheckStatus::Warning,
            label: "Workflow".to_owned(),
            project: Some("ext".to_owned()),
            message: "not configured".to_owned(),
            fix: Some("run eska init".to_owned()),
        },
    ];
    assert_eq!(
        render_doctor("Diagnosis", &checks, "Fix", "1 passed, 1 warning", false),
        "Diagnosis\n✓ Git: found\n! Workflow [ext]: not configured\n  Fix: run eska init\n\n1 passed, 1 warning"
    );
    let styled = render_doctor("Diagnosis", &checks, "Fix", "summary", true);
    assert!(styled.contains("\x1b[1;33m!\x1b[0m Workflow [ext]"), "{styled:?}");
}

#[test]
fn summary_counts_each_outcome_and_only_failures_fail() {
    let statuses = vec![
        CheckStatus::Pass,
        CheckStatus::Warning,
        CheckStatus::Pass,
        CheckStatus::Skipped,
    ];
    let summary = summarize(&statuses);
    assert_eq!(summary, Summary { passed: 2, warnings: 1, failed: 0, skipped: 1 });
    assert!(!has_failures(&statuses));
    assert_eq!(document_status(has_failures(&statuses)), "ok");
    let failed = vec![CheckStatus::Pass, CheckStatus::Fail];
    assert!(has_failures(&failed));
    assert_eq!(document_status(has_failures(&failed)), "error");
    assert_eq!(
        summary_message(summary),
        Message {
            key: "doctor-summary".to_owned(),
            args: vec![
                ("passed", Arg::Number(2)),
                ("warnings", Arg::Number(1)),
                ("failed", Arg::Number(0)),
                ("skipped", Arg::Number(1)),
            ],
        }
    );
}

#[test]
fn fixed_checks_name_their_commands_and_remediation() {
    let valid = machine_config_check(true);
    assert_eq!(valid.id, "machine.config");
    assert_eq!(valid.status, CheckStatus::Pass);
    assert_eq!(valid.code, "valid");
    assert_eq!(valid.commands, ["platform", "build", "patch"]);
    assert_eq!(valid.remediation, None);
    let invalid = machine_config_check(false);
    assert_eq!(invalid.status, CheckStatus::Fail);
    assert_eq!(invalid.remediation.as_deref(), Some("correct-machine-config"));
    let config = project_config_failure();
    assert_eq!(config.id, "project.config");
    assert_eq!(config.commands, ["status", "diff", "save", "build"]);
    assert_eq!(config.remediation.as_deref(), Some("correct-project-config"));
    let selection = selection_failure();
    assert_eq!(selection.id, "project.selection");
    assert_eq!(selection.commands, ["doctor"]);
    assert_eq!(selection.remediation.as_deref(), Some("correct-project-selection"));
}

#[test]
fn human_report_styles_status_markers_and_preserves_plain_output() {
    let checks: Vec<CheckLine> = [
        CheckStatus::Pass,
        CheckStatus::Warning,
        CheckStatus::Fail,
        CheckStatus::Skipped,
    ]
    .into_iter()
    .map(|status| CheckLine {
        status,
        label: "Machine configuration".to_owned(),
        project: None,
        message: "The machine configuration is valid.".to_owned(),
        fix: None,
    })
    .collect();

    let plain = render_doctor("Diagnosis", &checks, "Fix", "Summary", false);
    let styled = render_doctor("Diagnosis", &checks, "Fix", "Summary", true);

    assert!(!plain.contains('\x1b'), "{plain:?}");
    for sequence in ["\x1b[1;32m✓", "\x1b[1;33m!", "\x1b[1;31m✗", "\x1b[2;90m–"] {
        assert!(styled.contains(sequence), "{styled:?}");
    }
    assert_eq!(
        styled
            .replace("\x1b[1;32m", "")
            .replace("\x1b[1;33m", "")
            .replace("\x1b[1;31m", "")
            .replace("\x1b[2;90m", "")
            .replace("\x1b[0m", ""),
        plain
    );
}
