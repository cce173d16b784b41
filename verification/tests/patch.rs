use eska_cli::patch::{output_allowed, patch_state, PathPart, patch_error_key, patch_preview, patch_result_message, patch_report, PatchModule};
use eska_cli::messages::{Arg, Line, Message};

fn parts(path: &str) -> Vec<PathPart> {
    let mut parts = vec![PathPart::Root];
    for part in path.split('/').filter(|p| !p.is_empty()) {
        parts.push(if part == ".." { PathPart::Parent } else { PathPart::Normal(part.to_owned()) });
    }
    parts
}

#[test]
fn patch_artifacts_stay_outside_the_sources() {
    let source = parts("/erp/src");
    assert!(output_allowed(true, &parts("/erp/build/fix.cfe"), &source, Some("cfe")));
    assert!(!output_allowed(false, &parts("/erp/build/fix.cfe"), &source, Some("cfe")));
    assert!(!output_allowed(true, &parts("/erp/src/fix.cfe"), &source, Some("cfe")));
    assert!(!output_allowed(true, &parts("/erp/build/../fix.cfe"), &source, Some("cfe")));
    assert!(!output_allowed(true, &parts("/erp/build/fix.cf"), &source, Some("cf")));
    assert!(!output_allowed(true, &parts("/erp/build/fix"), &source, None));
    assert!(output_allowed(true, &parts("/erp/srcs/fix.cfe"), &source, Some("cfe")));
}

#[test]
fn patch_states() {
    assert_eq!(patch_state(true, false), "empty");
    assert_eq!(patch_state(true, true), "empty");
    assert_eq!(patch_state(false, true), "planned");
    assert_eq!(patch_state(false, false), "built");
}

#[test]
fn patch_preview_lists_each_module_with_its_methods() {
    let modules = vec![
        PatchModule { name: "CommonModule.Tools".to_owned(), methods: vec!["Run".to_owned(), "Stop".to_owned()] },
        PatchModule { name: "Catalog.Items".to_owned(), methods: vec!["Fill".to_owned()] },
    ];
    assert_eq!(
        patch_preview("abc123", "def456", &modules),
        vec![
            Line::Translated(Message {
                key: "patch-preview".to_owned(),
                args: vec![("base", Arg::Text("abc123".to_owned())), ("head", Arg::Text("def456".to_owned()))],
            }),
            Line::Verbatim("  CommonModule.Tools: Run, Stop".to_owned()),
            Line::Verbatim("  Catalog.Items: Fill".to_owned()),
        ]
    );
    assert_eq!(
        patch_result_message("planned", "/p/build/app.cfe"),
        Message { key: "patch-planned".to_owned(), args: vec![("output", Arg::Text("/p/build/app.cfe".to_owned()))] }
    );
    assert_eq!(patch_error_key("output"), "patch-error-output");
}

#[test]
fn patch_report_names_output_and_validation_by_state() {
    let empty = patch_report(true, false, "/p/out.cfe");
    assert_eq!((empty.status, empty.output, empty.validation), ("empty", None, None));
    let planned = patch_report(false, true, "/p/out.cfe");
    assert_eq!(planned.status, "planned");
    assert_eq!(planned.output.as_deref(), Some("/p/out.cfe"));
    assert_eq!(planned.validation, None);
    let built = patch_report(false, false, "/p/out.cfe");
    assert_eq!(built.status, "built");
    assert_eq!(built.validation, Some("metadata_bsl_applicability"));
    assert!(!built.runtime_verified && built.requires_safe_mode_disabled);
}
