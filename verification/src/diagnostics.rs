//! Messages of project discovery, workspace and configuration failures.
//! Paths, values and reasons travel as text; an operating system failure
//! travels as its kind, whose description is translated.

use vstd::prelude::*;
use crate::build_errors::{BuildSettingsError, RelativePathReason};
use crate::messages::{about_path, path_message, path_reason, path_reason_message, plain, ArgView, Message, MessageView};

verus! {

/// The kind of an operating system failure.
#[derive(Clone, Copy, Debug, PartialEq, Eq, Structural)]
pub enum IoKind {
    NotFound,
    PermissionDenied,
    InvalidData,
    NotADirectory,
    Other,
}

pub open spec fn io_reason_key(kind: IoKind) -> Seq<char> {
    match kind {
        IoKind::NotFound => "project-io-not-found"@,
        IoKind::PermissionDenied => "project-io-permission-denied"@,
        IoKind::InvalidData => "project-io-invalid-data"@,
        IoKind::NotADirectory => "project-io-not-directory"@,
        IoKind::Other => "project-io-other"@,
    }
}

fn io_reason(kind: IoKind) -> (key: &'static str)
    ensures
        key@ == io_reason_key(kind),
{
    match kind {
        IoKind::NotFound => "project-io-not-found",
        IoKind::PermissionDenied => "project-io-permission-denied",
        IoKind::InvalidData => "project-io-invalid-data",
        IoKind::NotADirectory => "project-io-not-directory",
        IoKind::Other => "project-io-other",
    }
}

/// A failed file operation: the path and the translated kind of failure.
pub open spec fn io_message_spec(path: Seq<char>, kind: IoKind) -> MessageView {
    about_path("project-io-error"@, path).with("reason"@, ArgView::Translated(io_reason_key(kind)))
}

/// The message of a failed file operation on `path`.
pub fn io_message(path: &str, kind: IoKind) -> (m: Message)
    ensures
        m@ == io_message_spec(path@, kind),
{
    path_message("project-io-error", path).translated("reason", io_reason(kind))
}

/// A message about a configuration value of the file at `path`.
pub open spec fn value_message_spec(key: Seq<char>, path: Seq<char>, value: Seq<char>) -> MessageView {
    about_path(key, path).with("value"@, ArgView::Text(value))
}

fn value_message(key: &'static str, path: &str, value: &str) -> (m: Message)
    ensures
        m@ == value_message_spec(key@, path@, value@),
{
    path_message(key, path).text("value", value)
}

/// Why a workflow policy is invalid.
pub enum PolicyError {
    InvalidValue { field: String, value: String },
    MissingField { field: String },
    ExtendsRequiresCustom,
    CustomBase,
    PublishRequired,
    IntegrationRequiredForDeletion,
    /// Any other policy failure.
    Other,
}

pub open spec fn workflow_message_spec(path: Seq<char>, error: PolicyError) -> MessageView {
    match error {
        PolicyError::InvalidValue { field, value } => about_path("project-workflow-value-invalid"@, path).with(
            "field"@,
            ArgView::Text(field@),
        ).with("value"@, ArgView::Text(value@)),
        PolicyError::MissingField { field } => about_path("project-workflow-field-missing"@, path).with(
            "field"@,
            ArgView::Text(field@),
        ),
        PolicyError::ExtendsRequiresCustom => about_path("project-workflow-custom-required"@, path),
        PolicyError::CustomBase => about_path("project-workflow-custom-base"@, path),
        PolicyError::PublishRequired => about_path("project-workflow-publish-required"@, path),
        PolicyError::IntegrationRequiredForDeletion => about_path("project-workflow-integration-required"@, path),
        PolicyError::Other => about_path("project-workflow-invalid"@, path),
    }
}

/// The message of an invalid workflow policy in the file at `path`.
pub fn workflow_message(path: &str, error: &PolicyError) -> (m: Message)
    ensures
        m@ == workflow_message_spec(path@, *error),
{
    match error {
        PolicyError::InvalidValue { field, value } => path_message("project-workflow-value-invalid", path).text(
            "field",
            field.as_str(),
        ).text("value", value.as_str()),
        PolicyError::MissingField { field } => path_message("project-workflow-field-missing", path).text(
            "field",
            field.as_str(),
        ),
        PolicyError::ExtendsRequiresCustom => path_message("project-workflow-custom-required", path),
        PolicyError::CustomBase => path_message("project-workflow-custom-base", path),
        PolicyError::PublishRequired => path_message("project-workflow-publish-required", path),
        PolicyError::IntegrationRequiredForDeletion => path_message("project-workflow-integration-required", path),
        PolicyError::Other => path_message("project-workflow-invalid", path),
    }
}

/// Why a resolved project path is invalid.
#[derive(Clone, Copy, Debug, PartialEq, Eq, Structural)]
pub enum InvalidPathReason {
    NotAbsolute,
    ContainsParentTraversal,
}

/// Why the paths of a project do not fit together.
pub enum ProjectPathError {
    InvalidPath { path: String, reason: InvalidPathReason },
    SourceOutsideRoot { root: String, source: String },
}

/// Why a project configuration is invalid.
pub enum ProjectConfigError {
    /// The project name, which is not valid.
    InvalidName(String),
    InvalidBuild(BuildSettingsError),
    InvalidWorkflow(PolicyError),
    UnknownWorkflow { value: String },
    Io { path: String, kind: IoKind },
    /// The file is not valid TOML; the parser's own words are not shown.
    Toml,
    UnknownProjectType { value: String },
    UnknownSourceFormat { value: String },
    InvalidSource { path: String, reason: RelativePathReason },
    ProjectPath(ProjectPathError),
}

pub open spec fn build_path_key(reason: RelativePathReason) -> Seq<char> {
    match reason {
        RelativePathReason::Empty => "project-build-path-empty"@,
        RelativePathReason::Absolute => "project-build-path-relative-required"@,
        RelativePathReason::ContainsParentTraversal => "project-build-path-parent-traversal"@,
    }
}

pub open spec fn source_path_key(reason: RelativePathReason) -> Seq<char> {
    match reason {
        RelativePathReason::Empty => "project-path-empty"@,
        RelativePathReason::Absolute => "project-path-relative-required"@,
        RelativePathReason::ContainsParentTraversal => "project-path-parent-traversal"@,
    }
}

pub open spec fn config_message_spec(path: Seq<char>, error: ProjectConfigError) -> MessageView {
    match error {
        ProjectConfigError::InvalidName(value) => value_message_spec("project-name-invalid"@, path, value@),
        ProjectConfigError::InvalidBuild(e) => match e {
            BuildSettingsError::InvalidPlatformVersion { value } => value_message_spec(
                "project-build-version-invalid"@,
                path,
                value@,
            ),
            BuildSettingsError::InvalidArtifactsDirectory { path: p, reason } => about_path(build_path_key(reason), p@),
        },
        ProjectConfigError::InvalidWorkflow(e) => workflow_message_spec(path, e),
        ProjectConfigError::UnknownWorkflow { value } => value_message_spec("project-workflow-unknown"@, path, value@),
        ProjectConfigError::Io { path: p, kind } => io_message_spec(p@, kind),
        ProjectConfigError::Toml => about_path("project-config-invalid"@, path),
        ProjectConfigError::UnknownProjectType { value } => value_message_spec("project-type-unknown"@, path, value@),
        ProjectConfigError::UnknownSourceFormat { value } => value_message_spec("project-format-unknown"@, path, value@),
        ProjectConfigError::InvalidSource { path: p, reason } => about_path(source_path_key(reason), p@),
        ProjectConfigError::ProjectPath(e) => match e {
            ProjectPathError::InvalidPath { path: p, reason } => about_path(
                match reason {
                    InvalidPathReason::NotAbsolute => "project-path-absolute-required"@,
                    InvalidPathReason::ContainsParentTraversal => "project-path-parent-traversal"@,
                },
                p@,
            ),
            ProjectPathError::SourceOutsideRoot { root, source } => plain("project-source-outside-root"@).with(
                "root"@,
                ArgView::Text(root@),
            ).with("source"@, ArgView::Text(source@)),
        },
    }
}

/// The message of an invalid project configuration in the file at `path`.
/// Parser and operating system wording is never shown untranslated.
pub fn config_message(path: &str, error: &ProjectConfigError) -> (m: Message)
    ensures
        m@ == config_message_spec(path@, *error),
{
    match error {
        ProjectConfigError::InvalidName(value) => value_message("project-name-invalid", path, value.as_str()),
        ProjectConfigError::InvalidBuild(e) => match e {
            BuildSettingsError::InvalidPlatformVersion { value } => value_message(
                "project-build-version-invalid",
                path,
                value.as_str(),
            ),
            BuildSettingsError::InvalidArtifactsDirectory { path: p, reason } => {
                let key = match reason {
                    RelativePathReason::Empty => "project-build-path-empty",
                    RelativePathReason::Absolute => "project-build-path-relative-required",
                    RelativePathReason::ContainsParentTraversal => "project-build-path-parent-traversal",
                };
                path_message(key, p.as_str())
            },
        },
        ProjectConfigError::InvalidWorkflow(e) => workflow_message(path, e),
        ProjectConfigError::UnknownWorkflow { value } => value_message("project-workflow-unknown", path, value.as_str()),
        ProjectConfigError::Io { path: p, kind } => io_message(p.as_str(), *kind),
        ProjectConfigError::Toml => path_message("project-config-invalid", path),
        ProjectConfigError::UnknownProjectType { value } => value_message("project-type-unknown", path, value.as_str()),
        ProjectConfigError::UnknownSourceFormat { value } => value_message(
            "project-format-unknown",
            path,
            value.as_str(),
        ),
        ProjectConfigError::InvalidSource { path: p, reason } => {
            let key = match reason {
                RelativePathReason::Empty => "project-path-empty",
                RelativePathReason::Absolute => "project-path-relative-required",
                RelativePathReason::ContainsParentTraversal => "project-path-parent-traversal",
            };
            path_message(key, p.as_str())
        },
        ProjectConfigError::ProjectPath(e) => match e {
            ProjectPathError::InvalidPath { path: p, reason } => {
                let key = match reason {
                    InvalidPathReason::NotAbsolute => "project-path-absolute-required",
                    InvalidPathReason::ContainsParentTraversal => "project-path-parent-traversal",
                };
                path_message(key, p.as_str())
            },
            ProjectPathError::SourceOutsideRoot { root, source } => Message::new("project-source-outside-root").text(
                "root",
                root.as_str(),
            ).text("source", source.as_str()),
        },
    }
}

/// Why a workspace manifest is invalid.
pub enum WorkspaceConfigError {
    Io { path: String, kind: IoKind },
    Toml,
    InvalidBuild,
    InvalidWorkflow(ProjectConfigError),
    InvalidMemberPath { path: String, reason: RelativePathReason },
}

pub open spec fn workspace_config_message_spec(manifest: Seq<char>, error: WorkspaceConfigError) -> MessageView {
    match error {
        WorkspaceConfigError::Io { path, kind } => io_message_spec(path@, kind),
        WorkspaceConfigError::Toml => about_path("workspace-config-invalid"@, manifest),
        WorkspaceConfigError::InvalidBuild => about_path("workspace-build-invalid"@, manifest),
        WorkspaceConfigError::InvalidWorkflow(e) => config_message_spec(manifest, e),
        WorkspaceConfigError::InvalidMemberPath { path, reason } => about_path(
            match reason {
                RelativePathReason::Empty => "workspace-member-path-empty"@,
                RelativePathReason::Absolute => "workspace-member-path-relative-required"@,
                RelativePathReason::ContainsParentTraversal => "workspace-member-path-parent-traversal"@,
            },
            path@,
        ),
    }
}

/// The message of an invalid workspace manifest at `manifest`.
pub fn workspace_config_message(manifest: &str, error: &WorkspaceConfigError) -> (m: Message)
    ensures
        m@ == workspace_config_message_spec(manifest@, *error),
{
    match error {
        WorkspaceConfigError::Io { path, kind } => io_message(path.as_str(), *kind),
        WorkspaceConfigError::Toml => path_message("workspace-config-invalid", manifest),
        WorkspaceConfigError::InvalidBuild => path_message("workspace-build-invalid", manifest),
        WorkspaceConfigError::InvalidWorkflow(e) => config_message(manifest, e),
        WorkspaceConfigError::InvalidMemberPath { path, reason } => {
            let key = match reason {
                RelativePathReason::Empty => "workspace-member-path-empty",
                RelativePathReason::Absolute => "workspace-member-path-relative-required",
                RelativePathReason::ContainsParentTraversal => "workspace-member-path-parent-traversal",
            };
            path_message(key, path.as_str())
        },
    }
}

/// Why a manifest, of a project or of a workspace, is invalid.
pub enum ManifestConfigError {
    Io { path: String, kind: IoKind },
    Toml,
    KindMissing,
    KindAmbiguous,
    Project(ProjectConfigError),
    Workspace(WorkspaceConfigError),
}

pub open spec fn manifest_message_spec(path: Seq<char>, error: ManifestConfigError) -> MessageView {
    match error {
        ManifestConfigError::Io { path: p, kind } => io_message_spec(p@, kind),
        ManifestConfigError::Toml => about_path("project-config-invalid"@, path),
        ManifestConfigError::KindMissing => about_path("manifest-kind-missing"@, path),
        ManifestConfigError::KindAmbiguous => about_path("manifest-kind-ambiguous"@, path),
        ManifestConfigError::Project(e) => config_message_spec(path, e),
        ManifestConfigError::Workspace(e) => workspace_config_message_spec(path, e),
    }
}

/// The message of an invalid manifest at `path`.
pub fn manifest_message(path: &str, error: &ManifestConfigError) -> (m: Message)
    ensures
        m@ == manifest_message_spec(path@, *error),
{
    match error {
        ManifestConfigError::Io { path: p, kind } => io_message(p.as_str(), *kind),
        ManifestConfigError::Toml => path_message("project-config-invalid", path),
        ManifestConfigError::KindMissing => path_message("manifest-kind-missing", path),
        ManifestConfigError::KindAmbiguous => path_message("manifest-kind-ambiguous", path),
        ManifestConfigError::Project(e) => config_message(path, e),
        ManifestConfigError::Workspace(e) => workspace_config_message(path, e),
    }
}

/// Why no project could be found from a directory.
pub enum DiscoveryError {
    NotFound { start: String },
    Io { path: String, kind: IoKind },
    StartNotDirectory { path: String },
    ConfigNotFile { path: String },
    SourceNotDirectory { path: String },
    Config { path: String, source: ProjectConfigError },
}

pub open spec fn project_message_spec(error: DiscoveryError) -> MessageView {
    match error {
        DiscoveryError::NotFound { start } => about_path("project-not-found"@, start@),
        DiscoveryError::Io { path, kind } => io_message_spec(path@, kind),
        DiscoveryError::StartNotDirectory { path } => about_path("project-start-not-directory"@, path@),
        DiscoveryError::ConfigNotFile { path } => about_path("project-config-not-file"@, path@),
        DiscoveryError::SourceNotDirectory { path } => about_path("project-source-not-directory"@, path@),
        DiscoveryError::Config { path, source } => config_message_spec(path@, source),
    }
}

/// The message of a failed project discovery.
pub fn project_error_message(error: &DiscoveryError) -> (m: Message)
    ensures
        m@ == project_message_spec(*error),
{
    match error {
        DiscoveryError::NotFound { start } => path_message("project-not-found", start.as_str()),
        DiscoveryError::Io { path, kind } => io_message(path.as_str(), *kind),
        DiscoveryError::StartNotDirectory { path } => path_message("project-start-not-directory", path.as_str()),
        DiscoveryError::ConfigNotFile { path } => path_message("project-config-not-file", path.as_str()),
        DiscoveryError::SourceNotDirectory { path } => path_message("project-source-not-directory", path.as_str()),
        DiscoveryError::Config { path, source } => config_message(path.as_str(), source),
    }
}

/// Why the project or workspace around a directory could not be resolved.
pub enum ContextDiscoveryError {
    Project(DiscoveryError),
    Manifest { path: String, source: ManifestConfigError },
    MemberNotDirectory { path: String },
    MemberOutsideWorkspace { workspace: String, member: String },
    DuplicateMember { path: String },
    NestedMembers { first: String, second: String },
    MemberManifestNotProject { path: String },
    MemberNameMissing { path: String },
    DuplicateName { name: String },
    MemberWorkflowUnsupported { path: String },
    MemberArtifactsDirectoryUnsupported { path: String },
    UnlistedProject { project: String, workspace: String },
    ResolvedBuild,
}

pub open spec fn context_message_spec(error: ContextDiscoveryError) -> MessageView {
    match error {
        ContextDiscoveryError::Project(e) => project_message_spec(e),
        ContextDiscoveryError::Manifest { path, source } => manifest_message_spec(path@, source),
        ContextDiscoveryError::MemberNotDirectory { path } => about_path("workspace-member-not-directory"@, path@),
        ContextDiscoveryError::MemberOutsideWorkspace { workspace, member } => plain(
            "workspace-member-outside-root"@,
        ).with("workspace"@, ArgView::Text(workspace@)).with("member"@, ArgView::Text(member@)),
        ContextDiscoveryError::DuplicateMember { path } => about_path("workspace-member-duplicate"@, path@),
        ContextDiscoveryError::NestedMembers { first, second } => plain("workspace-members-nested"@).with(
            "first"@,
            ArgView::Text(first@),
        ).with("second"@, ArgView::Text(second@)),
        ContextDiscoveryError::MemberManifestNotProject { path } => about_path(
            "workspace-member-project-required"@,
            path@,
        ),
        ContextDiscoveryError::MemberNameMissing { path } => about_path("workspace-member-name-required"@, path@),
        ContextDiscoveryError::DuplicateName { name } => plain("workspace-member-name-duplicate"@).with(
            "name"@,
            ArgView::Text(name@),
        ),
        ContextDiscoveryError::MemberWorkflowUnsupported { path } => about_path(
            "workspace-member-workflow-unsupported"@,
            path@,
        ),
        ContextDiscoveryError::MemberArtifactsDirectoryUnsupported { path } => about_path(
            "workspace-member-artifacts-directory-unsupported"@,
            path@,
        ),
        ContextDiscoveryError::UnlistedProject { project, workspace } => plain("workspace-project-unlisted"@).with(
            "project"@,
            ArgView::Text(project@),
        ).with("workspace"@, ArgView::Text(workspace@)),
        ContextDiscoveryError::ResolvedBuild => plain("workspace-build-invalid"@),
    }
}

/// The message of a failed project or workspace discovery.
pub fn context_error_message(error: &ContextDiscoveryError) -> (m: Message)
    ensures
        m@ == context_message_spec(*error),
{
    match error {
        ContextDiscoveryError::Project(e) => project_error_message(e),
        ContextDiscoveryError::Manifest { path, source } => manifest_message(path.as_str(), source),
        ContextDiscoveryError::MemberNotDirectory { path } => path_message("workspace-member-not-directory", path.as_str()),
        ContextDiscoveryError::MemberOutsideWorkspace { workspace, member } => Message::new(
            "workspace-member-outside-root",
        ).text("workspace", workspace.as_str()).text("member", member.as_str()),
        ContextDiscoveryError::DuplicateMember { path } => path_message("workspace-member-duplicate", path.as_str()),
        ContextDiscoveryError::NestedMembers { first, second } => Message::new("workspace-members-nested").text(
            "first",
            first.as_str(),
        ).text("second", second.as_str()),
        ContextDiscoveryError::MemberManifestNotProject { path } => path_message(
            "workspace-member-project-required",
            path.as_str(),
        ),
        ContextDiscoveryError::MemberNameMissing { path } => path_message("workspace-member-name-required", path.as_str()),
        ContextDiscoveryError::DuplicateName { name } => Message::new("workspace-member-name-duplicate").text(
            "name",
            name.as_str(),
        ),
        ContextDiscoveryError::MemberWorkflowUnsupported { path } => path_message(
            "workspace-member-workflow-unsupported",
            path.as_str(),
        ),
        ContextDiscoveryError::MemberArtifactsDirectoryUnsupported { path } => path_message(
            "workspace-member-artifacts-directory-unsupported",
            path.as_str(),
        ),
        ContextDiscoveryError::UnlistedProject { project, workspace } => Message::new("workspace-project-unlisted").text(
            "project",
            project.as_str(),
        ).text("workspace", workspace.as_str()),
        ContextDiscoveryError::ResolvedBuild => Message::new("workspace-build-invalid"),
    }
}

/// Why the machine-local configuration could not be used.
pub enum GlobalConfigError {
    LocationUnavailable,
    Io { path: String, reason: String },
    Replace { path: String, reason: String },
    Invalid { path: String, reason: String },
    DistroboxContainerMissing { path: String },
    HostContainerUnexpected { path: String },
    Editor { reason: String },
    EditorFailed,
}

pub open spec fn global_config_message_spec(error: GlobalConfigError) -> MessageView {
    match error {
        GlobalConfigError::LocationUnavailable => plain("config-location-error"@),
        GlobalConfigError::Io { path, reason } | GlobalConfigError::Replace { path, reason } => path_reason(
            "config-io-error"@,
            path@,
            reason@,
        ),
        GlobalConfigError::Invalid { path, reason } => path_reason("config-invalid"@, path@, reason@),
        GlobalConfigError::DistroboxContainerMissing { path } => about_path(
            "config-distrobox-container-missing"@,
            path@,
        ),
        GlobalConfigError::HostContainerUnexpected { path } => about_path("config-host-container-unexpected"@, path@),
        GlobalConfigError::Editor { reason } => plain("config-editor-error"@).with("reason"@, ArgView::Text(reason@)),
        GlobalConfigError::EditorFailed => plain("config-editor-failed"@),
    }
}

/// The message of a failure of the machine-local configuration.
pub fn global_config_message(error: &GlobalConfigError) -> (m: Message)
    ensures
        m@ == global_config_message_spec(*error),
{
    match error {
        GlobalConfigError::LocationUnavailable => Message::new("config-location-error"),
        GlobalConfigError::Io { path, reason } | GlobalConfigError::Replace { path, reason } => path_reason_message(
            "config-io-error",
            path.as_str(),
            reason.as_str(),
        ),
        GlobalConfigError::Invalid { path, reason } => path_reason_message("config-invalid", path.as_str(), reason.as_str()),
        GlobalConfigError::DistroboxContainerMissing { path } => path_message(
            "config-distrobox-container-missing",
            path.as_str(),
        ),
        GlobalConfigError::HostContainerUnexpected { path } => path_message(
            "config-host-container-unexpected",
            path.as_str(),
        ),
        GlobalConfigError::Editor { reason } => Message::new("config-editor-error").text("reason", reason.as_str()),
        GlobalConfigError::EditorFailed => Message::new("config-editor-failed"),
    }
}

/// What creating or editing the machine-local configuration did.
pub enum GlobalConfigOutcome {
    Created { path: String },
    Existing { path: String },
    Unchanged { path: String },
    /// The configuration changed; the previous one was kept at `backup`.
    Changed { path: String, backup: String },
}

pub open spec fn global_config_outcome_spec(outcome: GlobalConfigOutcome) -> MessageView {
    match outcome {
        GlobalConfigOutcome::Created { path } => about_path("config-created"@, path@),
        GlobalConfigOutcome::Existing { path } => about_path("config-existing"@, path@),
        GlobalConfigOutcome::Unchanged { path } => about_path("config-unchanged"@, path@),
        GlobalConfigOutcome::Changed { path, backup } => about_path("config-updated"@, path@).with(
            "backup"@,
            ArgView::Text(backup@),
        ),
    }
}

/// The message of a created or edited machine-local configuration.
pub fn global_config_outcome_message(outcome: &GlobalConfigOutcome) -> (m: Message)
    ensures
        m@ == global_config_outcome_spec(*outcome),
{
    match outcome {
        GlobalConfigOutcome::Created { path } => path_message("config-created", path.as_str()),
        GlobalConfigOutcome::Existing { path } => path_message("config-existing", path.as_str()),
        GlobalConfigOutcome::Unchanged { path } => path_message("config-unchanged", path.as_str()),
        GlobalConfigOutcome::Changed { path, backup } => path_message("config-updated", path.as_str()).text(
            "backup",
            backup.as_str(),
        ),
    }
}

} // verus!
