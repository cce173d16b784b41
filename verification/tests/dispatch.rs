use eska_cli::dispatch::{
    answer_after_run, check_file_sequence, is_committed, metadata_gate, notification_step,
    skipped_after_reset, file_notification_step, invalidate_all, reopen_all, response_too_large, FileAction,
    FileBatch, FileState, Answer, hide_empty_root_sections, metadata_method, source_refusal, MetadataMethod, BatchBudget, MetadataGate, NotificationStep, RESERVED_BYTES,
};
use eska_cli::framing::MAX_RESPONSE;
use eska_cli::rpc::IdCandidate;

fn step(method: &str, object: bool, cancel: IdCandidate, initialized: bool, closing: bool) -> NotificationStep {
    notification_step(method, object, &cancel, initialized, closing)
}

#[test]
fn exit_status_depends_on_a_prior_shutdown() {
    assert!(matches!(step("exit", true, IdCandidate::Other, true, true), NotificationStep::Exit(0)));
    assert!(matches!(step("exit", true, IdCandidate::Other, true, false), NotificationStep::Exit(1)));
    assert!(matches!(step("exit", true, IdCandidate::Other, false, false), NotificationStep::Exit(1)));
    assert!(matches!(
        step("exit", false, IdCandidate::Other, true, false),
        NotificationStep::Report("IDE_INVALID_EXIT_NOTIFICATION")
    ));
}

#[test]
fn notifications_in_an_open_session_are_checked() {
    assert!(matches!(
        step("workspace/didChangeFiles", true, IdCandidate::Other, true, false),
        NotificationStep::ApplyFileChanges
    ));
    assert!(matches!(
        step("workspace/didChangeFiles", true, IdCandidate::Other, false, false),
        NotificationStep::Nothing
    ));
    assert!(matches!(
        step("$/cancelRequest", true, IdCandidate::Other, true, false),
        NotificationStep::Report("IDE_INVALID_CANCEL_NOTIFICATION")
    ));
    assert!(matches!(
        step("$/cancelRequest", true, IdCandidate::Unsigned(7), true, false),
        NotificationStep::Nothing
    ));
    assert!(matches!(
        step("metadata/children", true, IdCandidate::Other, true, false),
        NotificationStep::Report("IDE_REQUEST_ID_REQUIRED")
    ));
    assert!(matches!(
        step("project/info", true, IdCandidate::Other, true, true),
        NotificationStep::Nothing
    ));
    assert!(matches!(step("unknown", true, IdCandidate::Other, true, false), NotificationStep::Nothing));
}

#[test]
fn late_cancellation_keeps_committed_results() {
    for method in ["initialize", "workspace/open", "workspace/close", "shutdown", "metadata/refresh", "metadata/index"] {
        assert!(is_committed(method));
        assert!(matches!(answer_after_run(method, true), Answer::Result));
    }
    assert!(!is_committed("metadata/get"));
    assert!(matches!(answer_after_run("metadata/get", true), Answer::Cancelled));
    assert!(matches!(answer_after_run("metadata/get", false), Answer::Result));
}

#[test]
fn batch_answers_keep_room_for_remaining_errors() {
    let mut budget = BatchBudget::new();
    assert_eq!(budget.bytes, 2);
    assert!(budget.fits(MAX_RESPONSE - 2 - RESERVED_BYTES));
    assert!(!budget.fits(MAX_RESPONSE - 1 - RESERVED_BYTES));
    budget.add(100);
    assert_eq!(budget.bytes, 103);
    assert!(!budget.fits(usize::MAX));
}

#[test]
fn file_notifications_must_follow_in_sequence() {
    assert_eq!(check_file_sequence(0, 1, 1), (1, true));
    assert_eq!(check_file_sequence(0, 2, 1), (2, false));
    assert_eq!(check_file_sequence(4, 5, 0), (5, false));
    assert_eq!(check_file_sequence(4, 5, 4096), (5, true));
    assert_eq!(check_file_sequence(4, 5, 4097), (5, false));
    assert_eq!(check_file_sequence(u64::MAX, 0, 1), (0, false));
}

#[test]
fn reset_scopes_skip_their_file_notifications() {
    let reset = vec![("s1".to_owned(), "p1".to_owned())];
    assert!(skipped_after_reset(false, "workspace/didChangeFiles", ("s1", "p1"), &reset));
    assert!(!skipped_after_reset(true, "workspace/didChangeFiles", ("s1", "p1"), &reset));
    assert!(!skipped_after_reset(false, "workspace/didChangeFiles", ("s1", "p2"), &reset));
    assert!(!skipped_after_reset(false, "metadata/refresh", ("s1", "p1"), &reset));
}

#[test]
fn lost_events_allow_only_the_root_refresh_and_index_status() {
    assert!(matches!(metadata_gate(true, false, "metadata/root", false, false), MetadataGate::ReopenRequired));
    assert!(matches!(metadata_gate(false, true, "metadata/children", false, false), MetadataGate::ResyncRequired));
    assert!(matches!(metadata_gate(false, true, "metadata/refresh", false, false), MetadataGate::ResyncRequired));
    assert!(matches!(
        metadata_gate(false, true, "metadata/refresh", true, false),
        MetadataGate::Proceed { check_generation: false }
    ));
    assert!(matches!(
        metadata_gate(false, true, "metadata/index", false, true),
        MetadataGate::Proceed { check_generation: true }
    ));
    assert!(matches!(
        metadata_gate(false, false, "metadata/refresh", true, false),
        MetadataGate::Proceed { check_generation: true }
    ));
}

fn batch(sequence: Option<u64>, update: Option<Result<usize, ()>>) -> FileBatch {
    FileBatch { manifest_changed: false, sequence, paths: 2, decoded: true, contained: true, update }
}

const READY: FileState = FileState { last: 4, refresh: false, reopen: false };

#[test]
fn file_notifications_in_sequence_publish_only_real_changes() {
    assert_eq!(
        file_notification_step(READY, &batch(Some(5), Some(Ok(3)))),
        (FileState { last: 5, ..READY }, FileAction::Publish)
    );
    assert_eq!(
        file_notification_step(READY, &batch(Some(5), Some(Ok(0)))),
        (FileState { last: 5, ..READY }, FileAction::Quiet)
    );
    assert_eq!(
        file_notification_step(READY, &batch(Some(5), Some(Err(())))),
        (FileState { last: 5, refresh: true, reopen: false }, FileAction::Fail)
    );
}

#[test]
fn invalid_file_notifications_are_refused_and_require_a_refresh() {
    let refused = FileState { last: 7, refresh: true, reopen: false };
    assert_eq!(file_notification_step(READY, &batch(Some(7), Some(Ok(1)))), (refused, FileAction::Reject));
    assert_eq!(
        file_notification_step(READY, &batch(None, None)),
        (FileState { last: 4, refresh: true, reopen: false }, FileAction::Reject)
    );
    let mut outside = batch(Some(5), Some(Ok(1)));
    outside.contained = false;
    assert_eq!(file_notification_step(READY, &outside).1, FileAction::Reject);
    let mut none = batch(Some(5), Some(Ok(1)));
    none.paths = 0;
    assert_eq!(file_notification_step(READY, &none).1, FileAction::Reject);
    let mut many = batch(Some(5), Some(Ok(1)));
    many.paths = 4097;
    assert_eq!(file_notification_step(READY, &many).1, FileAction::Reject);
    let waiting = FileState { last: 4, refresh: true, reopen: false };
    assert_eq!(file_notification_step(waiting, &batch(Some(5), Some(Ok(1)))).1, FileAction::Reject);
    let reopening = FileState { last: 4, refresh: false, reopen: true };
    assert_eq!(file_notification_step(reopening, &batch(Some(5), Some(Ok(1)))).1, FileAction::Reject);
}

#[test]
fn a_changed_manifest_reopens_and_an_overflow_refreshes_every_project() {
    let mut manifest = batch(Some(9), None);
    manifest.manifest_changed = true;
    assert_eq!(
        file_notification_step(READY, &manifest),
        (FileState { last: 4, refresh: false, reopen: true }, FileAction::ReopenAll)
    );
    let mut states = vec![READY, FileState { last: 1, refresh: false, reopen: true }];
    invalidate_all(&mut states);
    assert_eq!(
        states,
        vec![
            FileState { last: 4, refresh: true, reopen: false },
            FileState { last: 1, refresh: true, reopen: true },
        ]
    );
    reopen_all(&mut states);
    assert!(states.iter().all(|state| state.reopen && state.refresh));
}

#[test]
fn oversized_response_is_not_partially_published() {
    assert_eq!(response_too_large(MAX_RESPONSE), None);
    assert_eq!(response_too_large(MAX_RESPONSE + 1), Some(("response_too_large", MAX_RESPONSE)));
}

#[test]
fn metadata_methods_defaults_and_missing_sources() {
    assert_eq!(metadata_method("metadata/children"), Ok(MetadataMethod::Children));
    assert_eq!(metadata_method("metadata/indexErrors"), Ok(MetadataMethod::IndexErrors));
    assert_eq!(metadata_method("metadata/unknown"), Err(-32601));
    assert!(hide_empty_root_sections(None));
    assert!(!hide_empty_root_sections(Some(false)));
    assert_eq!(source_refusal(0), Some(("source_missing", "not_file")));
    assert_eq!(source_refusal(2), None);
}
