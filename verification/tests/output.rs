use eska_cli::build_output::{
    artifact_type_key, decorate_status, diagnostic_path_tail, display_path, file_uri,
    percent_encode_uri_path, render_artifact_link, render_build_success, runner_key,
    style_diagnostic_level, build_preview_lines, progress_line, ArtifactType, ProjectPreview, ToolSourceKind,
};
use eska_cli::messages::{Arg, Line, Message};

#[test]
fn styles_known_diagnostic_levels() {
    for (level, color) in [
        ("TRACE", "90"),
        ("DEBUG", "34"),
        ("INFO", "36"),
        ("WARN", "33"),
        ("ERROR", "31"),
        ("FATAL", "35"),
    ] {
        let message = format!("[{level}] diagnostic\n");
        assert_eq!(
            style_diagnostic_level(&message, true),
            format!("\x1b[1;{color}m[{level}]\x1b[0m diagnostic\n")
        );
        assert_eq!(style_diagnostic_level(&message, false), message);
    }
}

#[test]
fn preserves_unknown_diagnostic_prefixes() {
    assert_eq!(
        style_diagnostic_level("plain diagnostic\n", true),
        "plain diagnostic\n"
    );
}

#[test]
fn keeps_help_payload_tail_after_logical_owner() {
    assert_eq!(
        diagnostic_path_tail("DataProcessors/Files/Forms/AttachedFile/Ext/Help/ru.html"),
        Some("Ext/Help/ru.html")
    );
    assert_eq!(
        diagnostic_path_tail("DataProcessors/Files/Ext/ObjectModule.bsl"),
        None
    );
}

#[test]
fn decorates_build_status_without_changing_its_message() {
    assert_eq!(
        decorate_status("✓", "Built artifact", false, "32"),
        "✓ Built artifact"
    );
    assert_eq!(
        decorate_status("✓", "Built artifact", true, "32"),
        "\x1b[1;32m✓\x1b[0m Built artifact"
    );
}

#[test]
fn build_result_links_to_artifact_directory() {
    let artifact = "/tmp/build dir/demo.cf";
    let parent = Some("/tmp/build dir");
    assert_eq!(
        render_build_success("Собран", artifact, parent, true, true),
        [
            "\x1b[1;32m✓\x1b[0m \x1b[1mСобран\x1b[0m ",
            "\x1b]8;;file:///tmp/build%20dir\x1b\\",
            "/tmp/build dir/demo.cf",
            "\x1b]8;;\x1b\\"
        ]
        .concat()
    );
    assert_eq!(
        render_build_success("Собран", artifact, parent, false, false),
        "✓ Собран /tmp/build dir/demo.cf"
    );
}

#[test]
fn control_characters_in_artifact_paths_are_escaped() {
    assert_eq!(display_path("a\tb\nc\u{1b}d\u{7f}e\u{0}"), "a\\tb\\nc\\u{1b}d\\u{7f}e\\u{0}");
    assert_eq!(display_path("Каталог/файл.cf"), "Каталог/файл.cf");
    assert_eq!(render_artifact_link("/x/y.cf", Some("/x"), false), "/x/y.cf");
    assert_eq!(render_artifact_link("y.cf", None, true), "y.cf");
}

#[test]
fn file_uris_are_absolute_and_percent_encoded() {
    assert_eq!(file_uri("/tmp/build dir"), "file:///tmp/build%20dir");
    assert_eq!(file_uri("//server/share"), "file://server/share");
    assert_eq!(file_uri("C:\\Сборка"), "file:///C:/%D0%A1%D0%B1%D0%BE%D1%80%D0%BA%D0%B0");
    assert_eq!(percent_encode_uri_path(b"a-b._~/:%"), "a-b._~/:%25");
}

#[test]
fn preview_keys() {
    assert_eq!(artifact_type_key(ArtifactType::Configuration), "build-preview-type-configuration");
    assert_eq!(artifact_type_key(ArtifactType::Extension), "build-preview-type-extension");
    assert_eq!(artifact_type_key(ArtifactType::Processing), "build-preview-type-processing");
    assert_eq!(artifact_type_key(ArtifactType::Report), "build-preview-type-report");
    assert_eq!(runner_key(ToolSourceKind::Path), "build-preview-runner-host");
    assert_eq!(runner_key(ToolSourceKind::Distrobox), "build-preview-runner-distrobox");
}

fn preview(name: &str, base: Option<&str>, runner: ToolSourceKind) -> ProjectPreview {
    ProjectPreview {
        name: name.to_owned(),
        root: format!("/work/{name}"),
        source: format!("/work/{name}/src\ncfg"),
        base_configuration: base.map(str::to_owned),
        infobase: format!("/work/{name}/.ib"),
        recreates_infobase: base.is_some(),
        artifact_type: ArtifactType::Extension,
        output: format!("/work/{name}/out.cfe"),
        replaces_existing: base.is_none(),
        required_platform: "8.3.24".to_owned(),
        found_platform: "8.3.25".to_owned(),
        runner,
    }
}

fn field(key: &str, value: Arg) -> Line {
    Line::Translated(Message { key: key.to_owned(), args: vec![("value", value)] })
}

#[test]
fn build_preview_lists_every_project_field_in_order() {
    let projects = vec![
        preview("alpha", None, ToolSourceKind::Standard),
        preview("beta", Some("/base.cf"), ToolSourceKind::Distrobox),
    ];
    let lines = build_preview_lines(true, &projects);
    assert_eq!(lines.len(), 3 + 11 + 12);
    assert_eq!(lines[0], Line::Translated(Message { key: "build-preview-title".to_owned(), args: vec![] }));
    assert_eq!(
        lines[1],
        Line::Translated(Message { key: "build-preview-scope-workspace".to_owned(), args: vec![] })
    );
    assert_eq!(
        lines[2],
        Line::Translated(Message {
            key: "build-preview-projects".to_owned(),
            args: vec![("projects", Arg::Number(2))],
        })
    );
    assert_eq!(
        lines[3],
        Line::Translated(Message {
            key: "build-preview-project".to_owned(),
            args: vec![("position", Arg::Number(1)), ("name", Arg::Text("alpha".to_owned()))],
        })
    );
    assert_eq!(lines[5], field("build-preview-source", Arg::Text("/work/alpha/src\\ncfg".to_owned())));
    assert_eq!(lines[6], field("build-preview-infobase", Arg::Text("/work/alpha/.ib".to_owned())));
    assert_eq!(
        lines[7],
        field("build-preview-infobase-mode", Arg::Translated("build-preview-infobase-reuse"))
    );
    assert_eq!(
        lines[8],
        field("build-preview-artifact-type", Arg::Translated("build-preview-type-extension"))
    );
    assert_eq!(lines[10], field("build-preview-replaces-existing", Arg::Translated("build-preview-yes")));
    assert_eq!(lines[13], field("build-preview-runner", Arg::Translated("build-preview-runner-host")));
    assert_eq!(
        lines[14],
        Line::Translated(Message {
            key: "build-preview-project".to_owned(),
            args: vec![("position", Arg::Number(2)), ("name", Arg::Text("beta".to_owned()))],
        })
    );
    assert_eq!(lines[17], field("build-preview-base-configuration", Arg::Text("/base.cf".to_owned())));
    assert_eq!(
        lines[19],
        field("build-preview-infobase-mode", Arg::Translated("build-preview-infobase-recreate"))
    );
    assert_eq!(lines[25], field("build-preview-runner", Arg::Translated("build-preview-runner-distrobox")));
}

#[test]
fn standalone_build_preview_names_the_project_scope() {
    let lines = build_preview_lines(false, &vec![]);
    assert_eq!(
        lines,
        vec![
            Line::Translated(Message { key: "build-preview-title".to_owned(), args: vec![] }),
            Line::Translated(Message { key: "build-preview-scope-project".to_owned(), args: vec![] }),
            Line::Translated(Message {
                key: "build-preview-projects".to_owned(),
                args: vec![("projects", Arg::Number(0))],
            }),
        ]
    );
}

#[test]
fn progress_line_turns_through_the_spinner_frames() {
    assert_eq!(progress_line(0, "Building", false), "⠋ Building");
    assert_eq!(progress_line(9, "Building", false), "⠏ Building");
    assert_eq!(progress_line(12, "Building", false), "⠹ Building");
    assert_eq!(progress_line(1, "Building", true), "\x1b[1;36m⠙\x1b[0m Building");
}
