use eska_cli::status::{
    append_changes, head_name, project_type_key, readiness, render_fields, render_project_status,
    render_workspace_status, section, style_subsection, workflow_key, ChangeLabels, ChangeSummary,
    HeadState, LockSummary, MemberChanges, ProjectStatusReport, Readiness, StatusLabels,
    Synchronization, WorkspaceStatusReport,
};

#[test]
fn fields_are_aligned_and_style_only_the_labels() {
    let fields = [
        ("Тип".to_owned(), "Конфигурация".to_owned()),
        ("Workflow".to_owned(), "Git Flow".to_owned()),
    ];

    assert_eq!(
        render_fields(&fields, "", false),
        ["Тип:      Конфигурация", "Workflow: Git Flow"]
    );
    assert_eq!(
        render_fields(&fields, "  ", true),
        [
            "  \x1b[1mТип:      \x1b[0mКонфигурация",
            "  \x1b[1mWorkflow: \x1b[0mGit Flow",
        ]
    );
}

#[test]
fn change_counts_leave_out_absent_states() {
    let labels = ChangeLabels {
        files: "Files".to_owned(),
        added: "Added".to_owned(),
        modified: "Modified".to_owned(),
        deleted: "Deleted".to_owned(),
        type_changed: "Type changed".to_owned(),
        untracked: "Untracked".to_owned(),
        intent_to_add: "Intent to add".to_owned(),
        conflicts: "Conflicts".to_owned(),
    };
    let changes = ChangeSummary {
        files: 3,
        added: 1,
        modified: 0,
        deleted: 0,
        type_changed: 0,
        untracked: 2,
        intent_to_add: 0,
        conflicts: 0,
    };
    let mut lines = vec!["Changes".to_owned()];
    append_changes(&mut lines, changes, &labels, false);
    assert_eq!(
        lines,
        ["Changes", "  Files:     3", "  Added:     1", "  Untracked: 2"]
    );
}

#[test]
fn readiness_sections_and_keys() {
    assert_eq!(readiness("Save", true, false), "  ✓ Save");
    assert_eq!(readiness("Publish", false, true), "  \x1b[1;31m✗\x1b[0m Publish");
    assert_eq!(section("Project", true), "\x1b[1;36mProject\x1b[0m");
    assert_eq!(style_subsection("Members", false), "  Members");
    assert_eq!(style_subsection("Members", true), "  \x1b[1mMembers\x1b[0m");
    assert_eq!(head_name(HeadState::Detached), "detached");
    assert_eq!(project_type_key("report"), "new-type-report");
    assert_eq!(project_type_key("configuration"), "new-type-configuration");
    assert_eq!(workflow_key("git-flow"), "new-workflow-git-flow");
    assert_eq!(workflow_key("custom"), "new-workflow-custom");
    assert!(render_fields(&[], "", false).is_empty());
}

fn english_labels() -> StatusLabels {
    StatusLabels {
        project: "Project".to_owned(),
        project_type: "Type".to_owned(),
        workspace: "Workspace".to_owned(),
        workflow: "Workflow".to_owned(),
        task: "Task".to_owned(),
        branch: "Branch".to_owned(),
        base: "Base".to_owned(),
        changes: "Changes".to_owned(),
        workspace_files: "Workspace files".to_owned(),
        synchronization: "Synchronization".to_owned(),
        ahead: "Ahead".to_owned(),
        behind: "Behind".to_owned(),
        locks: "Locks".to_owned(),
        objects: "Objects".to_owned(),
        availability: "Availability".to_owned(),
        unavailable: "unavailable".to_owned(),
        readiness: "Readiness".to_owned(),
        ready_save: "save".to_owned(),
        ready_publish: "publish".to_owned(),
        counts: ChangeLabels {
            files: "Files".to_owned(),
            added: "Added".to_owned(),
            modified: "Modified".to_owned(),
            deleted: "Deleted".to_owned(),
            type_changed: "Type changed".to_owned(),
            untracked: "Untracked".to_owned(),
            intent_to_add: "Intent to add".to_owned(),
            conflicts: "Conflicts".to_owned(),
        },
    }
}

fn summary(files: usize, modified: usize) -> ChangeSummary {
    ChangeSummary {
        files,
        added: 0,
        modified,
        deleted: 0,
        type_changed: 0,
        untracked: 0,
        intent_to_add: 0,
        conflicts: 0,
    }
}

#[test]
fn project_status_lists_every_section_in_order() {
    let status = ProjectStatusReport {
        name: "trade".to_owned(),
        project_type: "Configuration".to_owned(),
        workflow: "Git Flow".to_owned(),
        task: None,
        branch: Some("feature/FI-1".to_owned()),
        base_branch: "develop".to_owned(),
        changes: summary(2, 2),
        synchronization: Some(Synchronization { ahead: 3, behind: 0 }),
        locks: LockSummary { available: false, count: None },
        readiness: Readiness { save: true, publish: false },
    };
    let text = render_project_status(&status, &english_labels(), false);
    assert_eq!(
        text,
        "Project:  trade\n\
         Type:     Configuration\n\
         Workflow: Git Flow\n\
         Task:     —\n\
         Branch:   feature/FI-1\n\
         Base:     develop\n\
         \n\
         Changes\n  \
           Files:    2\n  \
           Modified: 2\n\
         \n\
         Synchronization\n  \
           Ahead:  3\n  \
           Behind: 0\n\
         \n\
         Locks\n  \
           Availability: unavailable\n\
         \n\
         Readiness\n  \
           ✓ save\n  \
           ✗ publish"
    );
    let locked = ProjectStatusReport {
        locks: LockSummary { available: true, count: None },
        synchronization: None,
        ..status
    };
    let styled = render_project_status(&locked, &english_labels(), true);
    assert!(styled.contains("  \x1b[1mObjects: \x1b[0m0"), "{styled:?}");
    assert!(styled.contains("\x1b[1;33munavailable\x1b[0m"), "{styled:?}");
    assert!(styled.contains("\x1b[1;36mLocks\x1b[0m"), "{styled:?}");
}

#[test]
fn workspace_status_has_member_sections_and_no_lock_service() {
    let status = WorkspaceStatusReport {
        name: "erp".to_owned(),
        workflow: "Trunk".to_owned(),
        task: Some("FI-2".to_owned()),
        branch: None,
        base_branch: "main".to_owned(),
        members: vec![
            MemberChanges { heading: "Project main".to_owned(), changes: summary(1, 1) },
            MemberChanges { heading: "Project ext".to_owned(), changes: summary(0, 0) },
        ],
        workspace_changes: Some(summary(4, 0)),
        synchronization: None,
        readiness: Readiness { save: false, publish: false },
    };
    let text = render_workspace_status(&status, &english_labels(), false);
    assert_eq!(
        text,
        "Workspace: erp\n\
         Workflow:  Trunk\n\
         Task:      FI-2\n\
         Branch:    —\n\
         Base:      main\n\
         \n\
         Changes\n\
         \n  \
           Project main\n  \
           Files:    1\n  \
           Modified: 1\n\
         \n  \
           Project ext\n  \
           Files: 0\n\
         \n  \
           Workspace files\n  \
           Files: 4\n\
         \n\
         Synchronization\n  \
           Availability: unavailable\n\
         \n\
         Locks\n  \
           Availability: unavailable\n\
         \n\
         Readiness\n  \
           ✗ save\n  \
           ✗ publish"
    );
}
