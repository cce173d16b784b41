use eska_cli::messages::{Arg, Message};
use eska_cli::new_project::{
    created_message, member_preflight, member_step, prompt_failure_key, standalone_step, Given, NewStep,
};

fn refused(key: &'static str) -> NewStep {
    NewStep::Refuse { key, usage: true }
}

#[test]
fn standalone_project_checks_options_before_asking() {
    assert_eq!(standalone_step(Given::Invalid, Given::Invalid, true), refused("new-type-invalid"));
    assert_eq!(standalone_step(Given::Valid, Given::Invalid, true), refused("new-workflow-invalid"));
    assert_eq!(standalone_step(Given::Absent, Given::Valid, false), refused("new-options-required"));
    assert_eq!(
        standalone_step(Given::Absent, Given::Valid, true),
        NewStep::Ask { project_type: true, workflow: false }
    );
    assert_eq!(
        standalone_step(Given::Absent, Given::Absent, true),
        NewStep::Ask { project_type: true, workflow: true }
    );
    assert_eq!(standalone_step(Given::Valid, Given::Valid, false), NewStep::Create);
}

#[test]
fn workspace_member_asks_only_for_its_type() {
    assert_eq!(member_step(Given::Invalid, true), refused("new-type-invalid"));
    assert_eq!(member_step(Given::Absent, false), refused("new-member-type-required"));
    assert_eq!(member_step(Given::Absent, true), NewStep::Ask { project_type: true, workflow: false });
    assert_eq!(member_step(Given::Valid, false), NewStep::Create);
}

#[test]
fn member_preflight_refuses_bad_names_and_a_workflow() {
    assert_eq!(
        member_preflight("a/b", false, true),
        Some(Message { key: "new-member-name-invalid".to_owned(), args: vec![("name", Arg::Text("a/b".to_owned()))] })
    );
    assert_eq!(
        member_preflight("app", true, true),
        Some(Message { key: "workspace-onboarding-workflow-owned".to_owned(), args: vec![] })
    );
    assert_eq!(member_preflight("app", true, false), None);
}

#[test]
fn prompt_and_creation_messages() {
    assert_eq!(prompt_failure_key(true), "new-cancelled");
    assert_eq!(prompt_failure_key(false), "new-prompt-error");
    assert_eq!(
        created_message(true, "/w/src/app"),
        Message { key: "new-member-created".to_owned(), args: vec![("path", Arg::Text("/w/src/app".to_owned()))] }
    );
    assert_eq!(created_message(false, "/p").key, "new-created");
}
