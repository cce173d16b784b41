use eska_cli::args::{bootstrap_lang, command_name, CommandName, includes_workspace_files, revision_range};

fn args(values: &[&str]) -> Vec<Option<String>> {
    values.iter().map(|value| Some((*value).to_owned())).collect()
}

#[test]
fn extracts_both_bootstrap_argument_forms() {
    assert_eq!(
        bootstrap_lang(&args(&["eska", "--help", "--lang", "ru"])),
        Some("ru".to_owned())
    );
    assert_eq!(
        bootstrap_lang(&args(&["eska", "--lang=en", "--help"])),
        Some("en".to_owned())
    );
    assert_eq!(bootstrap_lang(&args(&["eska", "--", "--lang", "ru"])), None);
}

#[test]
fn bootstrap_lang_edge_cases() {
    assert_eq!(bootstrap_lang(&args(&["--lang=ru"])), None);
    assert_eq!(bootstrap_lang(&args(&["eska", "--lang"])), None);
    assert_eq!(bootstrap_lang(&[Some("eska".to_owned()), Some("--lang".to_owned()), None]), None);
    assert_eq!(
        bootstrap_lang(&[Some("eska".to_owned()), None, Some("--lang=ru".to_owned())]),
        Some("ru".to_owned())
    );
    assert_eq!(bootstrap_lang(&args(&["eska", "--lang=", "--lang", "ru"])), Some(String::new()));
}

#[test]
fn subcommand_names() {
    let names: Vec<_> = [
        CommandName::Clone,
        CommandName::New,
        CommandName::Init,
        CommandName::Diff,
        CommandName::History,
        CommandName::Save,
        CommandName::Start,
        CommandName::Status,
    ]
    .into_iter()
    .map(command_name)
    .collect();
    assert_eq!(names, ["clone", "new", "init", "diff", "history", "save", "start", "status"]);
}

#[test]
fn workspace_files_join_a_diff_when_asked_for_or_run_from_the_workspace() {
    assert!(includes_workspace_files(true, 2, true));
    assert!(includes_workspace_files(false, 0, false));
    assert!(!includes_workspace_files(false, 0, true));
    assert!(!includes_workspace_files(false, 1, false));
}

#[test]
fn revision_range_compares_against_head_by_default() {
    assert_eq!(revision_range(&vec![]), None);
    assert_eq!(revision_range(&vec!["v1".to_owned()]), Some(("v1".to_owned(), "HEAD".to_owned())));
    assert_eq!(
        revision_range(&vec!["v1".to_owned(), "v2".to_owned()]),
        Some(("v1".to_owned(), "v2".to_owned()))
    );
}
