//! The preview of a save: its scope, every file to commit with its index and
//! working-tree states, and the commit message.

use vstd::prelude::*;
use crate::changes::{display_path, display_path_spec};
use crate::commands::{save_state_key, save_state_spec};
use crate::diff::Change;
use crate::messages::{
    count_value, lines_view, plain, push_report_line, ArgView, Line, LineView, Message, MessageView,
};
use crate::workflow_errors::count_arg;

verus! {

/// What a save commits: one project, named when it is a workspace member,
/// or a whole workspace.
pub enum PreviewScope {
    Project { name: Option<String>, root: String },
    Workspace { root: String },
}

/// A file that the save commits, with its index and working-tree states.
pub struct SaveFile {
    pub path: Vec<u8>,
    pub index: Option<Change>,
    pub worktree: Option<Change>,
}

pub open spec fn scope_message_spec(scope: PreviewScope) -> MessageView {
    match scope {
        PreviewScope::Project { name: Some(name), root } => plain("save-preview-scope-member"@).with(
            "project"@,
            ArgView::Text(name@),
        ).with("path"@, ArgView::Text(root@)),
        PreviewScope::Project { name: None, root } => plain("save-preview-scope-project"@).with(
            "path"@,
            ArgView::Text(root@),
        ),
        PreviewScope::Workspace { root } => plain("save-preview-scope-workspace"@).with("path"@, ArgView::Text(root@)),
    }
}

pub open spec fn file_line_spec(file: SaveFile) -> LineView {
    LineView::Translated(
        plain("save-preview-file"@).with("path"@, ArgView::Text(display_path_spec(file.path@))).with(
            "index"@,
            ArgView::Translated(save_state_spec(file.index)),
        ).with("worktree"@, ArgView::Translated(save_state_spec(file.worktree))),
    )
}

/// The preview: its title, the scope, the number of files, one line per
/// file, then the message under its heading.
pub open spec fn preview_spec(scope: PreviewScope, files: Seq<SaveFile>, message: Seq<char>) -> Seq<LineView> {
    seq![
        LineView::Translated(plain("save-preview-title"@)),
        LineView::Translated(scope_message_spec(scope)),
        LineView::Translated(plain("save-preview-files"@).with("files"@, count_arg(files.len() as usize))),
    ] + files.map_values(|f: SaveFile| file_line_spec(f)) + seq![
        LineView::Translated(plain("save-preview-message"@)),
        LineView::Verbatim(message),
    ]
}

/// The lines of a save preview.
pub fn save_preview(scope: &PreviewScope, files: &Vec<SaveFile>, message: &str) -> (lines: Vec<Line>)
    ensures
        lines_view(lines@) == preview_spec(*scope, files@, message@),
{
    let mut lines: Vec<Line> = Vec::new();
    push_report_line(&mut lines, Line::Translated(Message::new("save-preview-title")));
    let scope_message = match scope {
        PreviewScope::Project { name: Some(name), root } => Message::new("save-preview-scope-member").text(
            "project",
            name.as_str(),
        ).text("path", root.as_str()),
        PreviewScope::Project { name: None, root } => Message::new("save-preview-scope-project").text("path", root.as_str()),
        PreviewScope::Workspace { root } => Message::new("save-preview-scope-workspace").text("path", root.as_str()),
    };
    push_report_line(&mut lines, Line::Translated(scope_message));
    push_report_line(
        &mut lines,
        Line::Translated(Message::new("save-preview-files").number("files", count_value(files.len()))),
    );
    let ghost head = lines_view(lines@);
    let mut i: usize = 0;
    while i < files.len()
        invariant
            i <= files@.len(),
            lines_view(lines@) == head + files@.subrange(0, i as int).map_values(|f: SaveFile| file_line_spec(f)),
        decreases files.len() - i,
    {
        let file = &files[i];
        let path = display_path(file.path.as_slice());
        let line = Message::new("save-preview-file").text("path", path.as_str()).translated(
            "index",
            save_state_key(file.index),
        ).translated("worktree", save_state_key(file.worktree));
        push_report_line(&mut lines, Line::Translated(line));
        assert(files@.subrange(0, i + 1) =~= files@.subrange(0, i as int).push(files@[i as int]));
        i = i + 1;
    }
    assert(files@.subrange(0, files@.len() as int) =~= files@);
    push_report_line(&mut lines, Line::Translated(Message::new("save-preview-message")));
    push_report_line(&mut lines, Line::Verbatim(message.to_owned()));
    assert(lines_view(lines@) =~= preview_spec(*scope, files@, message@));
    lines
}

} // verus!
