use eska_cli::messages::{Arg, Message};
use eska_cli::versioning::{
    bumped_message, update_error_key, update_failed, update_message, version_error_message, UpdateStatus,
    VersionError,
};

fn text(value: &str) -> Arg {
    Arg::Text(value.to_owned())
}

#[test]
fn version_errors_name_the_descriptor_or_value() {
    assert_eq!(
        version_error_message(&VersionError::Io { path: "/p/Configuration.xml".to_owned(), reason: "denied".to_owned() }),
        Message {
            key: "version-io-error".to_owned(),
            args: vec![("path", text("/p/Configuration.xml")), ("reason", text("denied"))],
        }
    );
    assert_eq!(
        version_error_message(&VersionError::VersionAmbiguous { path: "/p/a.xml".to_owned() }),
        Message { key: "version-value-ambiguous".to_owned(), args: vec![("path", text("/p/a.xml"))] }
    );
    assert_eq!(
        version_error_message(&VersionError::InvalidVersion { value: "1.x".to_owned() }),
        Message { key: "version-value-invalid".to_owned(), args: vec![("value", text("1.x"))] }
    );
    assert_eq!(
        version_error_message(&VersionError::Overflow { kind: "minor".to_owned() }),
        Message { key: "version-overflow".to_owned(), args: vec![("kind", text("minor"))] }
    );
}

#[test]
fn bumped_version_reports_both_versions_and_the_descriptor() {
    assert_eq!(
        bumped_message("1.0.0.1", "1.0.0.2", "src/Configuration.xml"),
        Message {
            key: "version-bumped".to_owned(),
            args: vec![
                ("previous", text("1.0.0.1")),
                ("current", text("1.0.0.2")),
                ("path", text("src/Configuration.xml")),
            ],
        }
    );
}

#[test]
fn update_outcomes_choose_their_message_and_exit() {
    assert_eq!(
        update_message(UpdateStatus::UpdateAvailable, "0.3.0", Some("0.4.0")),
        Message {
            key: "update-available".to_owned(),
            args: vec![("installed", text("0.3.0")), ("available", text("0.4.0"))],
        }
    );
    assert_eq!(
        update_message(UpdateStatus::UpToDate, "0.4.0", None),
        Message { key: "update-current".to_owned(), args: vec![("installed", text("0.4.0")), ("available", text(""))] }
    );
    assert!(update_failed(UpdateStatus::UnsupportedInstallation));
    for status in [UpdateStatus::UpToDate, UpdateStatus::UpdateAvailable, UpdateStatus::Updated] {
        assert!(!update_failed(status));
    }
    assert_eq!(update_error_key("network"), "update-error-network");
}
