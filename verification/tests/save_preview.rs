use eska_cli::diff::Change;
use eska_cli::messages::{Arg, Line, Message};
use eska_cli::save_preview::{save_preview, PreviewScope, SaveFile};

fn message(key: &str, args: Vec<(&'static str, Arg)>) -> Line {
    Line::Translated(Message { key: key.to_owned(), args })
}

#[test]
fn save_preview_lists_scope_files_and_message() {
    let scope = PreviewScope::Project { name: Some("main".to_owned()), root: "/erp/main".to_owned() };
    let files = vec![SaveFile {
        path: b"src/a\tb.bsl".to_vec(),
        index: None,
        worktree: Some(Change::Modified),
    }];
    let lines = save_preview(&scope, &files, "feat: change");
    assert_eq!(
        lines,
        vec![
            message("save-preview-title", vec![]),
            message(
                "save-preview-scope-member",
                vec![("project", Arg::Text("main".to_owned())), ("path", Arg::Text("/erp/main".to_owned()))]
            ),
            message("save-preview-files", vec![("files", Arg::Number(1))]),
            message(
                "save-preview-file",
                vec![
                    ("path", Arg::Text("\"src/a\\tb.bsl\"".to_owned())),
                    ("index", Arg::Translated("save-preview-state-unchanged")),
                    ("worktree", Arg::Translated("save-preview-state-modified")),
                ]
            ),
            message("save-preview-message", vec![]),
            Line::Verbatim("feat: change".to_owned()),
        ]
    );
    let workspace = save_preview(&PreviewScope::Workspace { root: "/erp".to_owned() }, &Vec::new(), "m");
    assert_eq!(workspace[1], message("save-preview-scope-workspace", vec![("path", Arg::Text("/erp".to_owned()))]));
    assert_eq!(workspace.len(), 5);
}
