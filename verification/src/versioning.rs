//! What the `version` and `update` commands say: a bumped project version,
//! why the version of a project could not be read or changed, and the
//! outcome of updating the command-line tool itself.

use vstd::prelude::*;
use crate::messages::{about_path, plain, ArgView, Message, MessageView};
use crate::text::push_str;

verus! {

/// Why the version of a project could not be read or changed.
pub enum VersionError {
    /// Reading or writing `path` failed for `reason`.
    Io { path: String, reason: String },
    DescriptorTooLarge { path: String },
    InvalidXml { path: String },
    DescriptorMissing { path: String },
    DescriptorAmbiguous { path: String },
    VersionMissing { path: String },
    VersionAmbiguous { path: String },
    InvalidVersion { value: String },
    /// The version part named `kind` cannot grow any further.
    Overflow { kind: String },
}

pub open spec fn version_error_spec(error: VersionError) -> MessageView {
    match error {
        VersionError::Io { path, reason } => about_path("version-io-error"@, path@).with(
            "reason"@,
            ArgView::Text(reason@),
        ),
        VersionError::DescriptorTooLarge { path } => about_path("version-descriptor-large"@, path@),
        VersionError::InvalidXml { path } => about_path("version-xml-invalid"@, path@),
        VersionError::DescriptorMissing { path } => about_path("version-descriptor-missing"@, path@),
        VersionError::DescriptorAmbiguous { path } => about_path("version-descriptor-ambiguous"@, path@),
        VersionError::VersionMissing { path } => about_path("version-value-missing"@, path@),
        VersionError::VersionAmbiguous { path } => about_path("version-value-ambiguous"@, path@),
        VersionError::InvalidVersion { value } => plain("version-value-invalid"@).with("value"@, ArgView::Text(value@)),
        VersionError::Overflow { kind } => plain("version-overflow"@).with("kind"@, ArgView::Text(kind@)),
    }
}

/// The message of a version that could not be read or changed.
pub fn version_error_message(error: &VersionError) -> (m: Message)
    ensures
        m@ == version_error_spec(*error),
{
    match error {
        VersionError::Io { path, reason } => Message::new("version-io-error").text("path", path.as_str()).text(
            "reason",
            reason.as_str(),
        ),
        VersionError::DescriptorTooLarge { path } => Message::new("version-descriptor-large").text(
            "path",
            path.as_str(),
        ),
        VersionError::InvalidXml { path } => Message::new("version-xml-invalid").text("path", path.as_str()),
        VersionError::DescriptorMissing { path } => Message::new("version-descriptor-missing").text(
            "path",
            path.as_str(),
        ),
        VersionError::DescriptorAmbiguous { path } => Message::new("version-descriptor-ambiguous").text(
            "path",
            path.as_str(),
        ),
        VersionError::VersionMissing { path } => Message::new("version-value-missing").text("path", path.as_str()),
        VersionError::VersionAmbiguous { path } => Message::new("version-value-ambiguous").text(
            "path",
            path.as_str(),
        ),
        VersionError::InvalidVersion { value } => Message::new("version-value-invalid").text("value", value.as_str()),
        VersionError::Overflow { kind } => Message::new("version-overflow").text("kind", kind.as_str()),
    }
}

/// The message of a bumped version: the previous and the current version
/// and the descriptor that holds it, relative to the project.
pub fn bumped_message(previous: &str, current: &str, descriptor: &str) -> (m: Message)
    ensures
        m@ == plain("version-bumped"@).with("previous"@, ArgView::Text(previous@)).with(
            "current"@,
            ArgView::Text(current@),
        ).with("path"@, ArgView::Text(descriptor@)),
{
    Message::new("version-bumped").text("previous", previous).text("current", current).text("path", descriptor)
}

/// What an update of the tool found or did.
#[derive(Clone, Copy, Debug, PartialEq, Eq, Structural)]
pub enum UpdateStatus {
    UpToDate,
    UpdateAvailable,
    Updated,
    /// The tool was installed in a way that it cannot update itself.
    UnsupportedInstallation,
}

pub open spec fn update_key_spec(status: UpdateStatus) -> Seq<char> {
    match status {
        UpdateStatus::UpToDate => "update-current"@,
        UpdateStatus::UpdateAvailable => "update-available"@,
        UpdateStatus::Updated => "update-updated"@,
        UpdateStatus::UnsupportedInstallation => "update-unsupported"@,
    }
}

/// The message of an update: the installed version, and the available one
/// or nothing where none is known.
pub fn update_message(status: UpdateStatus, installed: &str, available: Option<&str>) -> (m: Message)
    ensures
        m@ == plain(update_key_spec(status)).with("installed"@, ArgView::Text(installed@)).with(
            "available"@,
            ArgView::Text(
                match available {
                    Some(a) => a@,
                    None => Seq::empty(),
                },
            ),
        ),
{
    let key = match status {
        UpdateStatus::UpToDate => "update-current",
        UpdateStatus::UpdateAvailable => "update-available",
        UpdateStatus::Updated => "update-updated",
        UpdateStatus::UnsupportedInstallation => "update-unsupported",
    };
    let available = match available {
        Some(a) => a,
        None => {
            proof {
                reveal_strlit("");
                assert(""@ =~= Seq::<char>::empty());
            }
            ""
        },
    };
    Message::new(key).text("installed", installed).text("available", available)
}

/// An update fails only where the installation cannot update itself.
pub fn update_failed(status: UpdateStatus) -> (r: bool)
    ensures
        r == (status == UpdateStatus::UnsupportedInstallation),
{
    match status {
        UpdateStatus::UnsupportedInstallation => true,
        _ => false,
    }
}

/// The translation key of a failed update: `update-error-` and its code.
pub fn update_error_key(code: &str) -> (key: String)
    ensures
        key@ == "update-error-"@ + code@,
{
    let mut key = String::new();
    push_str(&mut key, "update-error-");
    push_str(&mut key, code);
    key
}

} // verus!
