//! The machine report of a build of several workspace members: one entry
//! per member in build order, and after an interrupted build the members
//! that did not run.

use vstd::prelude::*;
use crate::build_errors::{
    execution_code, execution_error_code, execution_error_stage, execution_stage, execution_was_interrupted,
    BuildError, BuildExecutionError,
};

verus! {

/// How the build of one member ended.
#[derive(Clone, Copy, Debug, PartialEq, Eq, Structural)]
pub enum EntryStatus {
    Success,
    Failed,
    /// Not run, because an earlier build was interrupted.
    Skipped,
}

/// The stable name of a member status in the machine report.
pub fn entry_status_name(status: EntryStatus) -> (name: &'static str)
    ensures
        name@ == match status {
            EntryStatus::Success => "success"@,
            EntryStatus::Failed => "failed"@,
            EntryStatus::Skipped => "skipped"@,
        },
{
    match status {
        EntryStatus::Success => "success",
        EntryStatus::Failed => "failed",
        EntryStatus::Skipped => "skipped",
    }
}

/// A built artifact: its kind, and its path with the encoding of that text.
pub struct ArtifactEntry {
    pub artifact_type: String,
    pub path: String,
    pub path_encoding: String,
}

/// What building one member came to.
pub enum MemberOutcome {
    Built(ArtifactEntry),
    Failed(BuildExecutionError),
}

/// One member in the report.
pub struct BuildEntry {
    pub name: String,
    pub status: EntryStatus,
    pub artifact: Option<ArtifactEntry>,
    pub platform_version: String,
    /// The stable code of the failure and the stage it happened in.
    pub error: Option<(&'static str, Option<&'static str>)>,
}

pub type ErrorView = (Seq<char>, Option<Seq<char>>);

pub type EntryView = (Seq<char>, EntryStatus, Option<(Seq<char>, Seq<char>, Seq<char>)>, Seq<char>, Option<ErrorView>);

pub open spec fn error_view(error: Option<(&'static str, Option<&'static str>)>) -> Option<ErrorView> {
    match error {
        Some((code, stage)) => Some(
            (
                code@,
                match stage {
                    Some(s) => Some(s@),
                    None => None,
                },
            ),
        ),
        None => None,
    }
}

pub open spec fn entry_view(e: BuildEntry) -> EntryView {
    (
        e.name@,
        e.status,
        match e.artifact {
            Some(a) => Some((a.artifact_type@, a.path@, a.path_encoding@)),
            None => None,
        },
        e.platform_version@,
        error_view(e.error),
    )
}

pub open spec fn entries_view(entries: Seq<BuildEntry>) -> Seq<EntryView> {
    entries.map_values(|e: BuildEntry| entry_view(e))
}

/// The entry of a member that was built: success with its artifact, or a
/// failure with the code and stage of its error.
pub open spec fn outcome_entry(name: Seq<char>, platform: Seq<char>, outcome: MemberOutcome) -> EntryView {
    match outcome {
        MemberOutcome::Built(a) => (name, EntryStatus::Success, Some((a.artifact_type@, a.path@, a.path_encoding@)), platform, None),
        MemberOutcome::Failed(e) => (name, EntryStatus::Failed, None, platform, Some((execution_code(e), execution_stage(e)))),
    }
}

/// The entry of a member that did not run after an interrupted build.
pub open spec fn skipped_entry(name: Seq<char>, platform: Seq<char>) -> EntryView {
    (name, EntryStatus::Skipped, None, platform, Some(("not-run-after-interrupt"@, None)))
}

/// Whether an outcome is a build that the user interrupted.
pub open spec fn interrupts(outcome: MemberOutcome) -> bool {
    outcome matches MemberOutcome::Failed(BuildExecutionError::Build(BuildError::Run { interrupted: true, .. }))
}

pub open spec fn skipped_entries(members: Seq<(String, String)>) -> Seq<EntryView> {
    members.map_values(|m: (String, String)| skipped_entry(m.0@, m.1@))
}

/// The report of a build of several members.
pub struct WorkspaceBuildReport {
    pub entries: Vec<BuildEntry>,
}

impl WorkspaceBuildReport {
    /// A report before any member was built.
    pub fn new() -> (r: WorkspaceBuildReport)
        ensures
            r.entries@.len() == 0,
    {
        WorkspaceBuildReport { entries: Vec::new() }
    }

    /// Records what building the member `name` for `platform` came to. An
    /// interrupted build stops the run: every member of `remaining` (its name
    /// and platform version) is then recorded as not run, and `true` says so.
    pub fn record(&mut self, name: &str, platform: &str, outcome: MemberOutcome, remaining: &Vec<(String, String)>) -> (stop: bool)
        ensures
            stop == interrupts(outcome),
            entries_view(final(self).entries@) == entries_view(old(self).entries@).push(
                outcome_entry(name@, platform@, outcome),
            ) + if stop {
                skipped_entries(remaining@)
            } else {
                Seq::empty()
            },
    {
        let ghost start = entries_view(self.entries@);
        let ghost first = outcome_entry(name@, platform@, outcome);
        let stop = match &outcome {
            MemberOutcome::Failed(error) => execution_was_interrupted(error),
            MemberOutcome::Built(_) => false,
        };
        let entry = match outcome {
            MemberOutcome::Built(artifact) => BuildEntry {
                name: name.to_owned(),
                status: EntryStatus::Success,
                artifact: Some(artifact),
                platform_version: platform.to_owned(),
                error: None,
            },
            MemberOutcome::Failed(error) => BuildEntry {
                name: name.to_owned(),
                status: EntryStatus::Failed,
                artifact: None,
                platform_version: platform.to_owned(),
                error: Some((execution_error_code(&error), execution_error_stage(&error))),
            },
        };
        assert(entry_view(entry) == first);
        self.entries.push(entry);
        assert(entries_view(self.entries@) =~= start.push(first));
        if !stop {
            assert(entries_view(self.entries@) =~= start.push(first) + Seq::<EntryView>::empty());
            return false;
        }
        let ghost head = entries_view(self.entries@);
        let mut i: usize = 0;
        while i < remaining.len()
            invariant
                i <= remaining@.len(),
                entries_view(self.entries@) == head + skipped_entries(remaining@.subrange(0, i as int)),
            decreases remaining.len() - i,
        {
            let member = &remaining[i];
            let skipped = BuildEntry {
                name: member.0.clone(),
                status: EntryStatus::Skipped,
                artifact: None,
                platform_version: member.1.clone(),
                error: Some(("not-run-after-interrupt", None)),
            };
            proof {
                reveal_strlit("not-run-after-interrupt");
            }
            assert(entry_view(skipped) == skipped_entry(remaining@[i as int].0@, remaining@[i as int].1@));
            let ghost before = entries_view(self.entries@);
            self.entries.push(skipped);
            assert(entries_view(self.entries@) =~= before.push(skipped_entry(remaining@[i as int].0@, remaining@[i as int].1@)));
            assert(remaining@.subrange(0, i + 1) =~= remaining@.subrange(0, i as int).push(remaining@[i as int]));
            assert(skipped_entries(remaining@.subrange(0, i + 1)) =~= skipped_entries(remaining@.subrange(0, i as int)).push(
                skipped_entry(remaining@[i as int].0@, remaining@[i as int].1@),
            ));
            i = i + 1;
        }
        assert(remaining@.subrange(0, remaining@.len() as int) =~= remaining@);
        true
    }

    /// A build of several members fails when one member failed; members
    /// that did not run follow a failure and do not add one.
    pub fn failed(&self) -> (r: bool)
        ensures
            r == exists|i: int| 0 <= i < self.entries@.len() && self.entries@[i].status == EntryStatus::Failed,
    {
        let mut i: usize = 0;
        while i < self.entries.len()
            invariant
                i <= self.entries@.len(),
                forall|j: int| 0 <= j < i ==> self.entries@[j].status != EntryStatus::Failed,
            decreases self.entries.len() - i,
        {
            if self.entries[i].status == EntryStatus::Failed {
                return true;
            }
            i = i + 1;
        }
        false
    }
}

/// A member is reported as not run only after an interrupted build, which
/// is itself reported as a failure: recording an outcome adds a skipped
/// entry only when that outcome is an interruption.
pub proof fn lemma_skips_follow_an_interruption(
    before: Seq<EntryView>,
    name: Seq<char>,
    platform: Seq<char>,
    outcome: MemberOutcome,
    remaining: Seq<(String, String)>,
)
    ensures
        ({
            let stop = interrupts(outcome);
            let after = before.push(outcome_entry(name, platform, outcome)) + if stop {
                skipped_entries(remaining)
            } else {
                Seq::empty()
            };
            &&& (forall|i: int| before.len() < i < after.len() ==> stop && #[trigger] after[i].1 == EntryStatus::Skipped)
            &&& stop ==> after[before.len() as int].1 == EntryStatus::Failed
            &&& after.len() == before.len() + 1 + if stop {
                remaining.len() as int
            } else {
                0
            }
        }),
{
}

} // verus!
