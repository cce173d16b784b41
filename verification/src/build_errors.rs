//! Build failures: their stable machine-facing codes and stages, and the
//! messages that present them. Paths and reasons travel as text.

use vstd::prelude::*;
use crate::commands::{source_label, source_text, ToolSource};
use crate::messages::{about_path, path_message, path_reason, path_reason_message, plain, ArgView, Message, MessageView};

verus! {

/// Why a project selection failed.
pub enum SelectionError {
    /// A selector that is not a valid project name.
    InvalidName(String),
    DuplicateSelector { name: String },
    UnknownProject { name: String },
    WorkspaceSelectorForStandalone,
    ConflictingSelectors,
    ExplicitProjectRequired,
    SingleProjectRequired,
}

pub open spec fn selection_code(error: SelectionError) -> Seq<char> {
    match error {
        SelectionError::InvalidName(_) => "project-name-invalid"@,
        SelectionError::DuplicateSelector { .. } => "project-selector-duplicate"@,
        SelectionError::UnknownProject { .. } => "project-not-found"@,
        SelectionError::WorkspaceSelectorForStandalone => "workspace-selector-for-standalone"@,
        SelectionError::ConflictingSelectors => "project-selectors-conflict"@,
        SelectionError::ExplicitProjectRequired => "project-selector-required"@,
        SelectionError::SingleProjectRequired => "single-project-required"@,
    }
}

/// The stable code of a selection failure.
pub fn selection_error_code(error: &SelectionError) -> (code: &'static str)
    ensures
        code@ == selection_code(*error),
{
    match error {
        SelectionError::InvalidName(_) => "project-name-invalid",
        SelectionError::DuplicateSelector { .. } => "project-selector-duplicate",
        SelectionError::UnknownProject { .. } => "project-not-found",
        SelectionError::WorkspaceSelectorForStandalone => "workspace-selector-for-standalone",
        SelectionError::ConflictingSelectors => "project-selectors-conflict",
        SelectionError::ExplicitProjectRequired => "project-selector-required",
        SelectionError::SingleProjectRequired => "single-project-required",
    }
}

/// Why a build plan could not be made.
pub enum PlanError {
    ProjectNameMissing,
    PlatformVersionMissing,
    InvalidOutput { path: String },
    UnexpectedExtension { path: String, expected: String },
    OutputCollision { path: String },
    BaseConfigurationUnsupported,
}

pub open spec fn plan_code(error: PlanError) -> Seq<char> {
    match error {
        PlanError::ProjectNameMissing => "project-name-missing"@,
        PlanError::PlatformVersionMissing => "platform-version-missing"@,
        PlanError::InvalidOutput { .. } => "output-invalid"@,
        PlanError::UnexpectedExtension { .. } => "output-extension-invalid"@,
        PlanError::OutputCollision { .. } => "output-collision"@,
        PlanError::BaseConfigurationUnsupported => "base-configuration-unsupported"@,
    }
}

/// The stable code of a planning failure.
pub fn plan_error_code(error: &PlanError) -> (code: &'static str)
    ensures
        code@ == plan_code(*error),
{
    match error {
        PlanError::ProjectNameMissing => "project-name-missing",
        PlanError::PlatformVersionMissing => "platform-version-missing",
        PlanError::InvalidOutput { .. } => "output-invalid",
        PlanError::UnexpectedExtension { .. } => "output-extension-invalid",
        PlanError::OutputCollision { .. } => "output-collision",
        PlanError::BaseConfigurationUnsupported => "base-configuration-unsupported",
    }
}

/// Why the platform tool could not be found or used.
pub enum ToolError {
    InvalidArchitecture(String),
    InvalidContainer(String),
    InvalidExecutable(String),
    DistroboxContainerRequired,
    Scan { path: String, reason: String },
    ScanCommandFailed { container: String, stderr: String },
    NotFound { expected: String, standard: String },
    Run(String),
    VersionCommandFailed { source: ToolSource, stderr: String },
    VersionUnreadable(ToolSource),
    VersionMismatch { expected: String, actual: String, source: ToolSource },
}

pub open spec fn tool_code(error: ToolError) -> Seq<char> {
    match error {
        ToolError::InvalidArchitecture(_) => "platform-architecture-invalid"@,
        ToolError::InvalidContainer(_) => "distrobox-container-invalid"@,
        ToolError::InvalidExecutable(_) => "ibcmd-executable-invalid"@,
        ToolError::DistroboxContainerRequired => "distrobox-container-required"@,
        ToolError::Scan { .. } | ToolError::ScanCommandFailed { .. } => "platform-scan-failed"@,
        ToolError::NotFound { .. } => "ibcmd-not-found"@,
        ToolError::Run(_) => "ibcmd-run-failed"@,
        ToolError::VersionCommandFailed { .. } => "ibcmd-version-command-failed"@,
        ToolError::VersionUnreadable(_) => "ibcmd-version-unreadable"@,
        ToolError::VersionMismatch { .. } => "ibcmd-version-mismatch"@,
    }
}

/// The stable code of a tool failure.
pub fn tool_error_code(error: &ToolError) -> (code: &'static str)
    ensures
        code@ == tool_code(*error),
{
    match error {
        ToolError::InvalidArchitecture(_) => "platform-architecture-invalid",
        ToolError::InvalidContainer(_) => "distrobox-container-invalid",
        ToolError::InvalidExecutable(_) => "ibcmd-executable-invalid",
        ToolError::DistroboxContainerRequired => "distrobox-container-required",
        ToolError::Scan { .. } | ToolError::ScanCommandFailed { .. } => "platform-scan-failed",
        ToolError::NotFound { .. } => "ibcmd-not-found",
        ToolError::Run(_) => "ibcmd-run-failed",
        ToolError::VersionCommandFailed { .. } => "ibcmd-version-command-failed",
        ToolError::VersionUnreadable(_) => "ibcmd-version-unreadable",
        ToolError::VersionMismatch { .. } => "ibcmd-version-mismatch",
    }
}

/// A step of the build pipeline that runs the platform tool.
#[derive(Clone, Copy, Debug, PartialEq, Eq, Structural)]
pub enum BuildStage {
    CreateInfobase,
    ImportSources,
}

/// The translation key of a pipeline step.
pub fn stage_key(stage: BuildStage) -> (key: &'static str)
    ensures
        key@ == match stage {
            BuildStage::CreateInfobase => "build-stage-create-infobase"@,
            BuildStage::ImportSources => "build-stage-import-sources"@,
        },
{
    match stage {
        BuildStage::CreateInfobase => "build-stage-create-infobase",
        BuildStage::ImportSources => "build-stage-import-sources",
    }
}

/// Why the managed infobase could not be used.
#[derive(Clone, Copy, Debug, PartialEq, Eq, Structural)]
pub enum ManagedInfobaseError {
    Io,
    Locked,
    Unowned,
    OutsideScope,
    StateSerialize,
}

/// Why the build manifest or its source snapshot failed.
pub enum ManifestError {
    SnapshotIo { path: String, reason: String },
    SnapshotEntryUnsupported(String),
    SnapshotProject,
    ArtifactRead { path: String, reason: String },
    Write { path: String, reason: String },
    Serialize,
}

/// Why a build failed while it ran.
pub enum BuildError {
    OutputParentMissing(String),
    ConfiguredOutputOutsideProject { root: String, output: String },
    InvalidExistingOutput(String),
    CreateDirectory { path: String, reason: String },
    CreateWorkspace { path: String, reason: String },
    /// The tool could not be run; `interrupted` when the run was interrupted.
    Run { stage: BuildStage, interrupted: bool, reason: String },
    /// The tool failed; `stderr` is what it reported.
    CommandFailed { stage: BuildStage, stderr: String },
    ArtifactMissing(String),
    ArtifactEmpty(String),
    Publish { path: String, reason: String },
    Restore { path: String, reason: String },
    DescriptorDirectory { path: String, reason: String },
    DescriptorRead { path: String, reason: String },
    DescriptorInvalid { path: String },
    DescriptorMissing(String),
    DescriptorsMultiple(String),
    BaseConfigurationRead { path: String, reason: String },
    BaseConfigurationInvalid(String),
    ManagedInfobase(ManagedInfobaseError),
    Manifest(ManifestError),
}

/// A failure while building or while writing the result.
pub enum BuildExecutionError {
    Build(BuildError),
    /// The result could not be written; the reason as text.
    Output(String),
}

pub open spec fn execution_code(error: BuildExecutionError) -> Seq<char> {
    match error {
        BuildExecutionError::Output(_) => "output-write"@,
        BuildExecutionError::Build(error) => match error {
            BuildError::OutputParentMissing(_) => "output-parent-missing"@,
            BuildError::ConfiguredOutputOutsideProject { .. } => "output-outside-scope"@,
            BuildError::InvalidExistingOutput(_) => "output-existing-invalid"@,
            BuildError::CreateDirectory { .. } => "create-directory"@,
            BuildError::CreateWorkspace { .. } => "create-workspace"@,
            BuildError::Run { interrupted, .. } => if interrupted {
                "interrupted"@
            } else {
                "process-error"@
            },
            BuildError::CommandFailed { .. } => "command-failed"@,
            BuildError::ArtifactMissing(_) => "artifact-missing"@,
            BuildError::ArtifactEmpty(_) => "artifact-empty"@,
            BuildError::Publish { .. } => "publish"@,
            BuildError::Restore { .. } => "restore"@,
            BuildError::DescriptorDirectory { .. } => "descriptor-directory"@,
            BuildError::DescriptorRead { .. } => "descriptor-read"@,
            BuildError::DescriptorInvalid { .. } => "descriptor-invalid"@,
            BuildError::DescriptorMissing(_) => "descriptor-missing"@,
            BuildError::DescriptorsMultiple(_) => "descriptors-multiple"@,
            BuildError::BaseConfigurationRead { .. } => "base-configuration-read"@,
            BuildError::BaseConfigurationInvalid(_) => "base-configuration-invalid"@,
            BuildError::ManagedInfobase(kind) => match kind {
                ManagedInfobaseError::Io => "infobase-io"@,
                ManagedInfobaseError::Locked => "infobase-locked"@,
                ManagedInfobaseError::Unowned => "infobase-unowned"@,
                ManagedInfobaseError::OutsideScope => "infobase-outside-scope"@,
                ManagedInfobaseError::StateSerialize => "infobase-state"@,
            },
            BuildError::Manifest(kind) => match kind {
                ManifestError::SnapshotIo { .. } => "snapshot-io"@,
                ManifestError::SnapshotEntryUnsupported(_) => "snapshot-entry-unsupported"@,
                ManifestError::SnapshotProject => "snapshot-invalid"@,
                ManifestError::ArtifactRead { .. } => "artifact-checksum"@,
                ManifestError::Write { .. } => "manifest-write"@,
                ManifestError::Serialize => "manifest-serialize"@,
            },
        },
    }
}

/// The stable code of an execution or output failure.
pub fn execution_error_code(error: &BuildExecutionError) -> (code: &'static str)
    ensures
        code@ == execution_code(*error),
{
    let inner = match error {
        BuildExecutionError::Output(_) => {
            return "output-write";
        },
        BuildExecutionError::Build(inner) => inner,
    };
    match inner {
        BuildError::OutputParentMissing(_) => "output-parent-missing",
        BuildError::ConfiguredOutputOutsideProject { .. } => "output-outside-scope",
        BuildError::InvalidExistingOutput(_) => "output-existing-invalid",
        BuildError::CreateDirectory { .. } => "create-directory",
        BuildError::CreateWorkspace { .. } => "create-workspace",
        BuildError::Run { interrupted, .. } => {
            if *interrupted {
                "interrupted"
            } else {
                "process-error"
            }
        },
        BuildError::CommandFailed { .. } => "command-failed",
        BuildError::ArtifactMissing(_) => "artifact-missing",
        BuildError::ArtifactEmpty(_) => "artifact-empty",
        BuildError::Publish { .. } => "publish",
        BuildError::Restore { .. } => "restore",
        BuildError::DescriptorDirectory { .. } => "descriptor-directory",
        BuildError::DescriptorRead { .. } => "descriptor-read",
        BuildError::DescriptorInvalid { .. } => "descriptor-invalid",
        BuildError::DescriptorMissing(_) => "descriptor-missing",
        BuildError::DescriptorsMultiple(_) => "descriptors-multiple",
        BuildError::BaseConfigurationRead { .. } => "base-configuration-read",
        BuildError::BaseConfigurationInvalid(_) => "base-configuration-invalid",
        BuildError::ManagedInfobase(kind) => match kind {
            ManagedInfobaseError::Io => "infobase-io",
            ManagedInfobaseError::Locked => "infobase-locked",
            ManagedInfobaseError::Unowned => "infobase-unowned",
            ManagedInfobaseError::OutsideScope => "infobase-outside-scope",
            ManagedInfobaseError::StateSerialize => "infobase-state",
        },
        BuildError::Manifest(kind) => match kind {
            ManifestError::SnapshotIo { .. } => "snapshot-io",
            ManifestError::SnapshotEntryUnsupported(_) => "snapshot-entry-unsupported",
            ManifestError::SnapshotProject => "snapshot-invalid",
            ManifestError::ArtifactRead { .. } => "artifact-checksum",
            ManifestError::Write { .. } => "manifest-write",
            ManifestError::Serialize => "manifest-serialize",
        },
    }
}

pub open spec fn execution_stage(error: BuildExecutionError) -> Option<Seq<char>> {
    match error {
        BuildExecutionError::Build(BuildError::Run { stage, .. })
        | BuildExecutionError::Build(BuildError::CommandFailed { stage, .. }) => Some(
            match stage {
                BuildStage::CreateInfobase => "create-infobase"@,
                BuildStage::ImportSources => "import-sources"@,
            },
        ),
        BuildExecutionError::Build(BuildError::Manifest(kind)) => match kind {
            ManifestError::ArtifactRead { .. } | ManifestError::Write { .. } | ManifestError::Serialize => Some(
                "manifest"@,
            ),
            _ => Some("snapshot"@),
        },
        _ => None,
    }
}

/// The failing stage, read from the failure itself and never from text.
pub fn execution_error_stage(error: &BuildExecutionError) -> (stage: Option<&'static str>)
    ensures
        match execution_stage(*error) {
            Some(s) => stage matches Some(t) && t@ == s,
            None => stage is None,
        },
{
    match error {
        BuildExecutionError::Build(BuildError::Run { stage, .. })
        | BuildExecutionError::Build(BuildError::CommandFailed { stage, .. }) => Some(
            match stage {
                BuildStage::CreateInfobase => "create-infobase",
                BuildStage::ImportSources => "import-sources",
            },
        ),
        BuildExecutionError::Build(BuildError::Manifest(kind)) => match kind {
            ManifestError::ArtifactRead { .. } | ManifestError::Write { .. } | ManifestError::Serialize => Some(
                "manifest",
            ),
            _ => Some("snapshot"),
        },
        _ => None,
    }
}

/// Only an explicit interruption of the tool stops the remaining builds.
pub fn execution_was_interrupted(error: &BuildExecutionError) -> (interrupted: bool)
    ensures
        interrupted == (*error matches BuildExecutionError::Build(BuildError::Run { interrupted: true, .. })),
{
    match error {
        BuildExecutionError::Build(BuildError::Run { interrupted, .. }) => *interrupted,
        _ => false,
    }
}

pub open spec fn stage_key_spec(stage: BuildStage) -> Seq<char> {
    match stage {
        BuildStage::CreateInfobase => "build-stage-create-infobase"@,
        BuildStage::ImportSources => "build-stage-import-sources"@,
    }
}

pub open spec fn plan_message_spec(error: PlanError) -> MessageView {
    match error {
        PlanError::ProjectNameMissing => plain("build-project-name-missing"@),
        PlanError::PlatformVersionMissing => plain("build-platform-version-missing"@),
        PlanError::InvalidOutput { path } => about_path("build-output-invalid"@, path@),
        PlanError::UnexpectedExtension { path, expected } => about_path("build-output-extension"@, path@).with(
            "extension"@,
            ArgView::Text(expected@),
        ),
        PlanError::OutputCollision { path } => about_path("build-output-collision"@, path@),
        PlanError::BaseConfigurationUnsupported => plain("build-base-configuration-unsupported"@),
    }
}

/// The message of a planning failure.
pub fn plan_error_message(error: &PlanError) -> (m: Message)
    ensures
        m@ == plan_message_spec(*error),
{
    match error {
        PlanError::ProjectNameMissing => Message::new("build-project-name-missing"),
        PlanError::PlatformVersionMissing => Message::new("build-platform-version-missing"),
        PlanError::InvalidOutput { path } => path_message("build-output-invalid", path.as_str()),
        PlanError::UnexpectedExtension { path, expected } => path_message("build-output-extension", path.as_str()).text(
            "extension",
            expected.as_str(),
        ),
        PlanError::OutputCollision { path } => path_message("build-output-collision", path.as_str()),
        PlanError::BaseConfigurationUnsupported => Message::new("build-base-configuration-unsupported"),
    }
}

/// Why the build settings of a project are invalid.
pub enum BuildSettingsError {
    InvalidPlatformVersion { value: String },
    InvalidArtifactsDirectory { path: String, reason: RelativePathReason },
}

/// Why a path that must stay inside a project is refused.
#[derive(Clone, Copy, Debug, PartialEq, Eq, Structural)]
pub enum RelativePathReason {
    Empty,
    Absolute,
    ContainsParentTraversal,
}

pub open spec fn platform_version_message_spec(error: BuildSettingsError) -> MessageView {
    match error {
        BuildSettingsError::InvalidPlatformVersion { value } => plain("build-platform-version-invalid"@).with(
            "value"@,
            ArgView::Text(value@),
        ),
        BuildSettingsError::InvalidArtifactsDirectory { .. } => plain("build-platform-version-error"@),
    }
}

/// The message of a platform version given on the command line that is not valid.
pub fn platform_version_error_message(error: &BuildSettingsError) -> (m: Message)
    ensures
        m@ == platform_version_message_spec(*error),
{
    match error {
        BuildSettingsError::InvalidPlatformVersion { value } => Message::new("build-platform-version-invalid").text(
            "value",
            value.as_str(),
        ),
        BuildSettingsError::InvalidArtifactsDirectory { .. } => Message::new("build-platform-version-error"),
    }
}

pub open spec fn manifest_message_spec(error: ManifestError) -> MessageView {
    match error {
        ManifestError::SnapshotIo { path, reason } => path_reason("build-manifest-filesystem-error"@, path@, reason@),
        ManifestError::SnapshotEntryUnsupported(path) => about_path("build-manifest-entry-unsupported"@, path@),
        ManifestError::SnapshotProject => plain("build-manifest-snapshot-invalid"@),
        ManifestError::ArtifactRead { path, reason } | ManifestError::Write { path, reason } => path_reason(
            "build-manifest-filesystem-error"@,
            path@,
            reason@,
        ),
        ManifestError::Serialize => plain("build-manifest-serialize-error"@),
    }
}

/// The message of a manifest or source snapshot failure.
pub fn manifest_error_message(error: &ManifestError) -> (m: Message)
    ensures
        m@ == manifest_message_spec(*error),
{
    match error {
        ManifestError::SnapshotIo { path, reason } => path_reason_message(
            "build-manifest-filesystem-error",
            path.as_str(),
            reason.as_str(),
        ),
        ManifestError::SnapshotEntryUnsupported(path) => path_message("build-manifest-entry-unsupported", path.as_str()),
        ManifestError::SnapshotProject => Message::new("build-manifest-snapshot-invalid"),
        ManifestError::ArtifactRead { path, reason } | ManifestError::Write { path, reason } => path_reason_message(
            "build-manifest-filesystem-error",
            path.as_str(),
            reason.as_str(),
        ),
        ManifestError::Serialize => Message::new("build-manifest-serialize-error"),
    }
}

/// The message of a build failure. A failure of the managed infobase has no
/// message here: its wording belongs to the managed-infobase diagnostics,
/// which this library does not hold; its stable code is
/// [`execution_error_code`]'s.
pub open spec fn build_message_spec(error: BuildError) -> Option<MessageView> {
    match error {
        BuildError::OutputParentMissing(path) => Some(about_path("build-output-invalid"@, path@)),
        BuildError::InvalidExistingOutput(path) => Some(about_path("build-output-existing-invalid"@, path@)),
        BuildError::ArtifactMissing(path) => Some(about_path("build-artifact-missing"@, path@)),
        BuildError::ArtifactEmpty(path) => Some(about_path("build-artifact-empty"@, path@)),
        BuildError::ConfiguredOutputOutsideProject { root, output } => Some(
            plain("build-output-outside-project"@).with("root"@, ArgView::Text(root@)).with(
                "path"@,
                ArgView::Text(output@),
            ),
        ),
        BuildError::CreateDirectory { path, reason }
        | BuildError::CreateWorkspace { path, reason }
        | BuildError::Publish { path, reason }
        | BuildError::Restore { path, reason }
        | BuildError::DescriptorDirectory { path, reason }
        | BuildError::DescriptorRead { path, reason } => Some(path_reason("build-filesystem-error"@, path@, reason@)),
        BuildError::Run { stage, interrupted, reason } => Some(
            plain(if interrupted { "build-interrupted"@ } else { "build-process-error"@ }).with(
                "stage"@,
                ArgView::Translated(stage_key_spec(stage)),
            ).with("reason"@, ArgView::Text(reason@)),
        ),
        BuildError::CommandFailed { stage, stderr } => Some(
            plain("build-command-failed"@).with("stage"@, ArgView::Translated(stage_key_spec(stage))).with(
                "reason"@,
                ArgView::Text(stderr@),
            ),
        ),
        BuildError::DescriptorInvalid { path } => Some(about_path("build-descriptor-invalid"@, path@)),
        BuildError::DescriptorMissing(path) => Some(about_path("build-descriptor-missing"@, path@)),
        BuildError::DescriptorsMultiple(path) => Some(about_path("build-descriptors-multiple"@, path@)),
        BuildError::BaseConfigurationInvalid(path) => Some(about_path("build-base-configuration-invalid"@, path@)),
        BuildError::BaseConfigurationRead { path, reason } => Some(
            path_reason("build-base-configuration-read"@, path@, reason@),
        ),
        BuildError::ManagedInfobase(_) => None,
        BuildError::Manifest(e) => Some(manifest_message_spec(e)),
    }
}

/// The message of a build failure, naming the failing stage when a tool
/// step failed.
pub fn build_error_message(error: &BuildError) -> (m: Option<Message>)
    ensures
        match build_message_spec(*error) {
            Some(v) => m matches Some(x) && x@ == v,
            None => m is None,
        },
{
    match error {
        BuildError::OutputParentMissing(path) => Some(path_message("build-output-invalid", path.as_str())),
        BuildError::InvalidExistingOutput(path) => Some(path_message("build-output-existing-invalid", path.as_str())),
        BuildError::ArtifactMissing(path) => Some(path_message("build-artifact-missing", path.as_str())),
        BuildError::ArtifactEmpty(path) => Some(path_message("build-artifact-empty", path.as_str())),
        BuildError::ConfiguredOutputOutsideProject { root, output } => Some(
            Message::new("build-output-outside-project").text("root", root.as_str()).text("path", output.as_str()),
        ),
        BuildError::CreateDirectory { path, reason }
        | BuildError::CreateWorkspace { path, reason }
        | BuildError::Publish { path, reason }
        | BuildError::Restore { path, reason }
        | BuildError::DescriptorDirectory { path, reason }
        | BuildError::DescriptorRead { path, reason } => Some(
            path_reason_message("build-filesystem-error", path.as_str(), reason.as_str()),
        ),
        BuildError::Run { stage, interrupted, reason } => Some(
            Message::new(if *interrupted { "build-interrupted" } else { "build-process-error" }).translated(
                "stage",
                stage_key(*stage),
            ).text("reason", reason.as_str()),
        ),
        BuildError::CommandFailed { stage, stderr } => Some(
            Message::new("build-command-failed").translated("stage", stage_key(*stage)).text("reason", stderr.as_str()),
        ),
        BuildError::DescriptorInvalid { path } => Some(path_message("build-descriptor-invalid", path.as_str())),
        BuildError::DescriptorMissing(path) => Some(path_message("build-descriptor-missing", path.as_str())),
        BuildError::DescriptorsMultiple(path) => Some(path_message("build-descriptors-multiple", path.as_str())),
        BuildError::BaseConfigurationInvalid(path) => Some(
            path_message("build-base-configuration-invalid", path.as_str()),
        ),
        BuildError::BaseConfigurationRead { path, reason } => Some(
            path_reason_message("build-base-configuration-read", path.as_str(), reason.as_str()),
        ),
        BuildError::ManagedInfobase(_) => None,
        BuildError::Manifest(e) => Some(manifest_error_message(e)),
    }
}

/// While the tool's output streams to the terminal, a failed command is
/// reported by its stage only: its output was already shown.
pub open spec fn streamed_message_spec(error: BuildError) -> Option<MessageView> {
    match error {
        BuildError::CommandFailed { stage, .. } => Some(
            plain("build-command-failed-streamed"@).with("stage"@, ArgView::Translated(stage_key_spec(stage))),
        ),
        _ => build_message_spec(error),
    }
}

/// The message of a failed build or of a result that could not be written.
pub open spec fn execution_message_spec(error: BuildExecutionError) -> Option<MessageView> {
    match error {
        BuildExecutionError::Build(e) => streamed_message_spec(e),
        BuildExecutionError::Output(reason) => Some(
            plain("build-output-write-error"@).with("reason"@, ArgView::Text(reason@)),
        ),
    }
}

/// The message of a failed build, or of a result that could not be written.
pub fn execution_error_message(error: &BuildExecutionError) -> (m: Option<Message>)
    ensures
        match execution_message_spec(*error) {
            Some(v) => m matches Some(x) && x@ == v,
            None => m is None,
        },
{
    match error {
        BuildExecutionError::Build(BuildError::CommandFailed { stage, .. }) => Some(
            Message::new("build-command-failed-streamed").translated("stage", stage_key(*stage)),
        ),
        BuildExecutionError::Build(e) => build_error_message(e),
        BuildExecutionError::Output(reason) => Some(Message::new("build-output-write-error").text("reason", reason.as_str())),
    }
}

pub open spec fn selection_message_spec(error: SelectionError) -> MessageView {
    match error {
        SelectionError::InvalidName(value) => plain("project-selector-name-invalid"@).with("name"@, ArgView::Text(value@)),
        SelectionError::DuplicateSelector { name } => plain("project-selector-duplicate"@).with(
            "name"@,
            ArgView::Text(name@),
        ),
        SelectionError::UnknownProject { name } => plain("project-selector-unknown"@).with("name"@, ArgView::Text(name@)),
        SelectionError::WorkspaceSelectorForStandalone => plain("project-selector-standalone"@),
        SelectionError::ConflictingSelectors => plain("project-selector-conflict"@),
        SelectionError::ExplicitProjectRequired | SelectionError::SingleProjectRequired => plain(
            "project-selector-single-required"@,
        ),
    }
}

/// The message of a failed project selection.
pub fn selection_error_message(error: &SelectionError) -> (m: Message)
    ensures
        m@ == selection_message_spec(*error),
{
    match error {
        SelectionError::InvalidName(value) => Message::new("project-selector-name-invalid").text("name", value.as_str()),
        SelectionError::DuplicateSelector { name } => Message::new("project-selector-duplicate").text("name", name.as_str()),
        SelectionError::UnknownProject { name } => Message::new("project-selector-unknown").text("name", name.as_str()),
        SelectionError::WorkspaceSelectorForStandalone => Message::new("project-selector-standalone"),
        SelectionError::ConflictingSelectors => Message::new("project-selector-conflict"),
        SelectionError::ExplicitProjectRequired | SelectionError::SingleProjectRequired => Message::new(
            "project-selector-single-required",
        ),
    }
}

pub open spec fn tool_message_spec(error: ToolError) -> MessageView {
    match error {
        ToolError::InvalidArchitecture(value) => plain("build-arch-invalid"@).with("value"@, ArgView::Text(value@)),
        ToolError::InvalidContainer(value) => plain("build-distrobox-invalid"@).with("value"@, ArgView::Text(value@)),
        ToolError::InvalidExecutable(path) => about_path("build-ibcmd-invalid"@, path@),
        ToolError::DistroboxContainerRequired => plain("build-distrobox-container-required"@),
        ToolError::Scan { path, reason } => path_reason("platform-scan-error"@, path@, reason@),
        ToolError::ScanCommandFailed { container, stderr } => plain("platform-scan-command-error"@).with(
            "container"@,
            ArgView::Text(container@),
        ).with("reason"@, ArgView::Text(stderr@)),
        ToolError::NotFound { expected, standard } => plain("build-ibcmd-missing"@).with(
            "version"@,
            ArgView::Text(expected@),
        ).with("path"@, ArgView::Text(standard@)),
        ToolError::Run(reason) => plain("build-ibcmd-run-error"@).with("reason"@, ArgView::Text(reason@)),
        ToolError::VersionCommandFailed { source, stderr } => plain("build-version-command-error"@).with(
            "source"@,
            ArgView::Text(source_text(source)),
        ).with("reason"@, ArgView::Text(stderr@)),
        ToolError::VersionUnreadable(source) => plain("build-version-unreadable"@).with(
            "source"@,
            ArgView::Text(source_text(source)),
        ),
        ToolError::VersionMismatch { expected, actual, source } => plain("build-version-mismatch"@).with(
            "expected"@,
            ArgView::Text(expected@),
        ).with("actual"@, ArgView::Text(actual@)).with("source"@, ArgView::Text(source_text(source))),
    }
}

/// The message of a platform discovery or version failure.
pub fn tool_error_message(error: &ToolError) -> (m: Message)
    ensures
        m@ == tool_message_spec(*error),
{
    match error {
        ToolError::InvalidArchitecture(value) => Message::new("build-arch-invalid").text("value", value.as_str()),
        ToolError::InvalidContainer(value) => Message::new("build-distrobox-invalid").text("value", value.as_str()),
        ToolError::InvalidExecutable(path) => path_message("build-ibcmd-invalid", path.as_str()),
        ToolError::DistroboxContainerRequired => Message::new("build-distrobox-container-required"),
        ToolError::Scan { path, reason } => path_reason_message("platform-scan-error", path.as_str(), reason.as_str()),
        ToolError::ScanCommandFailed { container, stderr } => Message::new("platform-scan-command-error").text(
            "container",
            container.as_str(),
        ).text("reason", stderr.as_str()),
        ToolError::NotFound { expected, standard } => Message::new("build-ibcmd-missing").text(
            "version",
            expected.as_str(),
        ).text("path", standard.as_str()),
        ToolError::Run(reason) => Message::new("build-ibcmd-run-error").text("reason", reason.as_str()),
        ToolError::VersionCommandFailed { source, stderr } => {
            let label = source_label(source);
            Message::new("build-version-command-error").text("source", label.as_str()).text("reason", stderr.as_str())
        },
        ToolError::VersionUnreadable(source) => {
            let label = source_label(source);
            Message::new("build-version-unreadable").text("source", label.as_str())
        },
        ToolError::VersionMismatch { expected, actual, source } => {
            let label = source_label(source);
            Message::new("build-version-mismatch").text("expected", expected.as_str()).text("actual", actual.as_str()).text(
                "source",
                label.as_str(),
            )
        },
    }
}

} // verus!
