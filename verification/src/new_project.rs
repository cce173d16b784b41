//! The decisions of `new`: when it refuses its options, which of them it
//! still asks for in a menu, and when it creates the project.

use vstd::prelude::*;
use crate::messages::{plain, ArgView, Message};

verus! {

/// An option as the command line gave it.
#[derive(Clone, Copy, Debug, PartialEq, Eq, Structural)]
pub enum Given {
    Absent,
    Valid,
    Invalid,
}

/// What `new` does next.
#[derive(Clone, Copy, Debug, PartialEq, Eq)]
pub enum NewStep {
    /// Stop with the translated message of `key`; a usage error exits with
    /// status 2, another refusal with status 1.
    Refuse { key: &'static str, usage: bool },
    /// Ask in menus for the project type and the workflow, where marked.
    Ask { project_type: bool, workflow: bool },
    Create,
}

pub open spec fn refuse(step: NewStep, key: Seq<char>) -> bool {
    step matches NewStep::Refuse { key: k, usage } && k@ == key && usage
}

/// A new standalone project: an invalid type or workflow is refused, in
/// that order; a missing one is asked for on a terminal and is required
/// elsewhere; with both given, the project is created.
pub open spec fn standalone_step_spec(project_type: Given, workflow: Given, interactive: bool, step: NewStep) -> bool {
    if project_type == Given::Invalid {
        refuse(step, "new-type-invalid"@)
    } else if workflow == Given::Invalid {
        refuse(step, "new-workflow-invalid"@)
    } else if project_type == Given::Absent || workflow == Given::Absent {
        if interactive {
            step == NewStep::Ask { project_type: project_type == Given::Absent, workflow: workflow == Given::Absent }
        } else {
            refuse(step, "new-options-required"@)
        }
    } else {
        step == NewStep::Create
    }
}

/// The next step of creating a standalone project.
pub fn standalone_step(project_type: Given, workflow: Given, interactive: bool) -> (step: NewStep)
    ensures
        standalone_step_spec(project_type, workflow, interactive, step),
{
    if project_type == Given::Invalid {
        NewStep::Refuse { key: "new-type-invalid", usage: true }
    } else if workflow == Given::Invalid {
        NewStep::Refuse { key: "new-workflow-invalid", usage: true }
    } else if project_type == Given::Absent || workflow == Given::Absent {
        if interactive {
            NewStep::Ask { project_type: project_type == Given::Absent, workflow: workflow == Given::Absent }
        } else {
            NewStep::Refuse { key: "new-options-required", usage: true }
        }
    } else {
        NewStep::Create
    }
}

/// A new workspace member takes the workspace's workflow: an invalid type
/// is refused, a missing one is asked for on a terminal and is required
/// elsewhere.
pub open spec fn member_step_spec(project_type: Given, interactive: bool, step: NewStep) -> bool {
    match project_type {
        Given::Invalid => refuse(step, "new-type-invalid"@),
        Given::Absent => if interactive {
            step == NewStep::Ask { project_type: true, workflow: false }
        } else {
            refuse(step, "new-member-type-required"@)
        },
        Given::Valid => step == NewStep::Create,
    }
}

/// The next step of creating a workspace member.
pub fn member_step(project_type: Given, interactive: bool) -> (step: NewStep)
    ensures
        member_step_spec(project_type, interactive, step),
{
    match project_type {
        Given::Invalid => NewStep::Refuse { key: "new-type-invalid", usage: true },
        Given::Absent => if interactive {
            NewStep::Ask { project_type: true, workflow: false }
        } else {
            NewStep::Refuse { key: "new-member-type-required", usage: true }
        },
        Given::Valid => NewStep::Create,
    }
}

/// Before a member is planned: its path must be a single valid project
/// name, and no workflow may be given, since the workspace owns it.
pub fn member_preflight(name: &str, name_valid: bool, workflow_given: bool) -> (refusal: Option<Message>)
    ensures
        !name_valid ==> (refusal matches Some(m) && m@ == plain("new-member-name-invalid"@).with(
            "name"@,
            ArgView::Text(name@),
        )),
        name_valid && workflow_given ==> (refusal matches Some(m) && m@ == plain(
            "workspace-onboarding-workflow-owned"@,
        )),
        name_valid && !workflow_given ==> refusal is None,
{
    if !name_valid {
        Some(Message::new("new-member-name-invalid").text("name", name))
    } else if workflow_given {
        Some(Message::new("workspace-onboarding-workflow-owned"))
    } else {
        None
    }
}

/// The translation key of a menu that did not complete: cancelled by the
/// user, or failed on the terminal.
pub fn prompt_failure_key(cancelled: bool) -> (key: &'static str)
    ensures
        key@ == if cancelled {
            "new-cancelled"@
        } else {
            "new-prompt-error"@
        },
{
    if cancelled {
        "new-cancelled"
    } else {
        "new-prompt-error"
    }
}

/// The message of a created project, or of a created workspace member.
pub fn created_message(member: bool, path: &str) -> (m: Message)
    ensures
        m@ == plain(
            if member {
                "new-member-created"@
            } else {
                "new-created"@
            },
        ).with("path"@, ArgView::Text(path@)),
{
    let key = if member {
        "new-member-created"
    } else {
        "new-created"
    };
    Message::new(key).text("path", path)
}

/// `new` creates a project only from a valid type and, for a standalone
/// project, a valid workflow, and asks only on a terminal and only for what
/// is missing.
pub proof fn lemma_new_creates_only_valid_projects(
    project_type: Given,
    workflow: Given,
    interactive: bool,
    step: NewStep,
)
    ensures
        standalone_step_spec(project_type, workflow, interactive, step) ==> {
            &&& step == NewStep::Create ==> project_type == Given::Valid && workflow == Given::Valid
            &&& step matches NewStep::Ask { project_type: t, workflow: w } ==> interactive && t == (project_type
                == Given::Absent) && w == (workflow == Given::Absent) && (t || w)
        },
        member_step_spec(project_type, interactive, step) ==> {
            &&& step == NewStep::Create ==> project_type == Given::Valid
            &&& step matches NewStep::Ask { .. } ==> interactive
        },
{
}

} // verus!
