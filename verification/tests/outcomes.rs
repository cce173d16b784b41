use eska_cli::messages::{Arg, Line, Message};
use eska_cli::outcomes::{
    clean_error_line, clean_outcome_line, command_message, save_created_message, save_error_messages,
    CleanOutcome, CommandFailure, CommandOperation, SaveError,
};

fn message(key: &str, args: Vec<(&'static str, Arg)>) -> Message {
    Message { key: key.to_owned(), args }
}

#[test]
fn cleaned_member_reports_its_name_before_the_escaped_path() {
    assert_eq!(
        clean_outcome_line(Some("core"), "/ib/co\tre", CleanOutcome::Removed),
        Line::Chain(vec![
            message(
                "clean-member-result",
                vec![("name", Arg::Text("core".to_owned())), ("result", Arg::Next)]
            ),
            message("clean-removed", vec![("path", Arg::Text("/ib/co\\tre".to_owned()))]),
        ])
    );
    assert_eq!(
        clean_outcome_line(None, "/ib", CleanOutcome::AlreadyAbsent),
        Line::Translated(message("clean-absent", vec![("path", Arg::Text("/ib".to_owned()))]))
    );
}

#[test]
fn clean_failure_of_a_lone_project_is_the_reason_alone() {
    assert_eq!(clean_error_line(None, "denied"), Line::Verbatim("denied".to_owned()));
    assert_eq!(
        clean_error_line(Some("core"), "denied"),
        Line::Translated(message(
            "clean-member-error",
            vec![("name", Arg::Text("core".to_owned())), ("reason", Arg::Text("denied".to_owned()))]
        ))
    );
}

#[test]
fn failed_command_reports_trimmed_error_output_or_its_status() {
    let failed = CommandFailure::Failed {
        operation: CommandOperation::Commit,
        status: "exit status: 1".to_owned(),
        stderr: b"  \n hook rejected\n\t".to_vec(),
    };
    assert_eq!(
        command_message(&failed),
        message("save-commit-error", vec![("reason", Arg::Text("hook rejected".to_owned()))])
    );
    let blank = CommandFailure::Failed {
        operation: CommandOperation::Stage,
        status: "exit status: 128".to_owned(),
        stderr: b" \r\n".to_vec(),
    };
    assert_eq!(
        command_message(&blank),
        message("save-stage-error", vec![("reason", Arg::Text("exit status: 128".to_owned()))])
    );
    let spawn = CommandFailure::Spawn { operation: CommandOperation::Other, reason: "not found".to_owned() };
    assert_eq!(
        command_message(&spawn),
        message("save-repository-error", vec![("reason", Arg::Text("not found".to_owned()))])
    );
}

#[test]
fn failed_index_restore_carries_the_original_failure() {
    let error = SaveError::IndexRestore {
        path: "/repo/.git/index".to_owned(),
        original: Box::new(SaveError::Conflicts { files: 3 }),
    };
    assert_eq!(
        save_error_messages(&error),
        vec![
            message(
                "save-index-restore-error",
                vec![("reason", Arg::Next), ("path", Arg::Text("/repo/.git/index".to_owned()))]
            ),
            message("save-conflicts", vec![("files", Arg::Number(3))]),
        ]
    );
    assert_eq!(save_error_messages(&SaveError::NoChanges), vec![message("save-no-changes", vec![])]);
}

#[test]
fn created_commit_is_named_by_seven_characters() {
    assert_eq!(
        save_created_message(2, "0123456789abcdef"),
        message(
            "save-created",
            vec![("files", Arg::Number(2)), ("commit", Arg::Text("0123456".to_owned()))]
        )
    );
    assert_eq!(
        save_created_message(1, "abc"),
        message("save-created", vec![("files", Arg::Number(1)), ("commit", Arg::Text("abc".to_owned()))])
    );
}
