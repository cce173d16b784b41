use eska_cli::report::{render_human, DisplayChange, DisplayTarget};
use eska_cli::changes::{metadata_path_parts, semantic_object_parts, LabelPart, display_path, semantic_object_group, unescape_object_name};
use eska_cli::diff::{
    append_state_groups, change_color, change_group_key, change_marker, change_name, change_rank,
    format_change, human_state_title, marker_change, raw_code, render_raw, render_revision_raw,
    short_id, state_sort_key, style_header, style_metadata_group, style_state_heading, Change,
    FileChange, HumanState, RevisionFileChange, StateLabels,
};

fn labels(english: bool) -> StateLabels {
    let text = |en: &str, ru: &str| if english { en.to_owned() } else { ru.to_owned() };
    StateLabels {
        added: text("Added", "Добавлены"),
        modified: text("Modified", "Изменены"),
        deleted: text("Deleted", "Удалены"),
        type_changed: text("Type changed", "Изменён тип"),
        untracked: text("Untracked", "Неотслеживаемые"),
        intent_to_add: text("Intent to add", "Намечены к добавлению"),
        conflict: text("Conflicts", "Конфликты"),
        index: text("index", "индекс"),
        worktree: text("working tree", "рабочая копия"),
        index_and_worktree: text("index and working tree", "индекс и рабочая копия"),
    }
}

#[test]
fn stable_change_representations_cover_every_state() {
    let values = [
        (Change::Added, "added", 'A', '+'),
        (Change::Modified, "modified", 'M', '✎'),
        (Change::Deleted, "deleted", 'D', '−'),
        (Change::TypeChanged, "type_changed", 'T', '↔'),
        (Change::Untracked, "untracked", '?', '?'),
        (Change::IntentToAdd, "intent_to_add", 'I', '◌'),
        (Change::Conflict, "conflict", 'U', '!'),
    ];
    for (change, name, code, marker) in values {
        assert_eq!(change_name(change), name);
        assert_eq!(raw_code(Some(change)), code);
        assert_eq!(change_marker(change), marker);
    }
    assert_eq!(raw_code(None), '.');
}

#[test]
fn raw_output_has_two_state_columns() {
    let files = vec![FileChange {
        path: b"src/module.bsl".to_vec(),
        index: Some(Change::Modified),
        worktree: Some(Change::Deleted),
    }];
    assert_eq!(render_raw(&files), "MD\tsrc/module.bsl\n");
}

#[test]
fn workspace_state_heading_describes_both_stages() {
    let state = HumanState::IndexAndWorktree {
        index: Change::Added,
        worktree: Change::Modified,
    };
    for (english, expected) in [
        (false, "Добавлены — индекс; Изменены — рабочая копия"),
        (true, "Added — index; Modified — working tree"),
    ] {
        assert_eq!(human_state_title(state, &labels(english)), expected);
    }
    assert_eq!(change_marker(marker_change(state)), '✎');
}

#[test]
fn path_presentation_escapes_control_characters() {
    assert_eq!(display_path(b"src/line\nname"), "\"src/line\\nname\"");
}

#[test]
fn paths_are_quoted_only_when_needed() {
    assert_eq!(display_path("src/Модуль.bsl".as_bytes()), "src/Модуль.bsl");
    assert_eq!(display_path(b"a\"b\\c\td\re\xff"), "\"a\\\"b\\\\c\\td\\re\\xFF\"");
    assert_eq!(display_path(b"\x7f"), "\"\\x7F\"");
}

#[test]
fn revision_rows_have_one_state_column() {
    let files = vec![
        RevisionFileChange { path: b"a.bsl".to_vec(), change: Change::Added },
        RevisionFileChange { path: b"b\tc".to_vec(), change: Change::Conflict },
    ];
    assert_eq!(render_revision_raw(&files), "A\ta.bsl\nU\t\"b\\tc\"\n");
    let files = vec![FileChange { path: b"x".to_vec(), index: None, worktree: Some(Change::Untracked) }];
    assert_eq!(render_raw(&files), ".?\tx\n");
}

#[test]
fn state_groups_are_sorted_counted_and_marked() {
    let mut lines = vec!["Files".to_owned()];
    append_state_groups(
        &mut lines,
        vec![
            ("b".to_owned(), HumanState::Worktree(Change::Added)),
            ("z".to_owned(), HumanState::Worktree(Change::Modified)),
            ("a".to_owned(), HumanState::Worktree(Change::Added)),
            ("m".to_owned(), HumanState::Index(Change::Modified)),
        ],
        &labels(true),
        false,
    );
    assert_eq!(
        lines,
        [
            "Files",
            "  Modified — working tree (1):",
            "    ✎ z",
            "  Modified — index (1):",
            "    ✎ m",
            "  Added — working tree (2):",
            "    + a",
            "    + b",
        ]
    );
}

#[test]
fn styled_state_groups_color_the_marker() {
    let mut lines = Vec::new();
    append_state_groups(
        &mut lines,
        vec![("x".to_owned(), HumanState::Revision(Change::Deleted))],
        &labels(true),
        true,
    );
    assert_eq!(lines, ["  \x1b[1;31mDeleted\x1b[0m \x1b[2m(1)\x1b[0m:", "    \x1b[1;31m−\x1b[0m x"]);
}

#[test]
fn styles_and_orders() {
    assert_eq!(style_header("Files", true), "\x1b[1mFiles\x1b[0m");
    assert_eq!(style_header("Files", false), "Files");
    assert_eq!(style_metadata_group("Catalogs:", true), "\x1b[1;36mCatalogs:\x1b[0m");
    assert_eq!(style_state_heading("Added", 12, Change::Added, false), "  Added (12):");
    assert_eq!(format_change("x", Change::Conflict, true), "    \x1b[1;91m!\x1b[0m x");
    assert_eq!(change_color(Change::IntentToAdd), 32);
    assert_eq!(change_rank(Change::Modified), 0);
    assert_eq!(change_group_key(Change::TypeChanged), "diff-group-type-changed");
    assert_eq!(state_sort_key(HumanState::Index(Change::Added)), (1, 'A', '.'));
    assert_eq!(
        HumanState::workspace(Some(Change::Added), None),
        Some(HumanState::Index(Change::Added))
    );
    assert_eq!(HumanState::workspace(None, None), None);
    assert_eq!(short_id("0123456789abcdef"), "0123456");
    assert_eq!(short_id("abc"), "abc");
}

#[test]
fn object_identifiers() {
    assert_eq!(unescape_object_name("Код%2FАртикул%3A1%25"), "Код/Артикул:1%");
    assert_eq!(unescape_object_name("%252F"), "%2F");
    assert_eq!(semantic_object_group("catalog:Контрагенты/attribute:Код"), "catalog");
    assert_eq!(semantic_object_group("configuration"), "configuration");
}

#[test]
fn human_output_groups_logical_metadata() {
    for (english, group, logical, other) in [
        (false, "Справочники", "Справочник.Контрагенты.Реквизит.Реквизит1", "Прочие файлы"),
        (true, "Catalogs", "Catalog.Контрагенты.Attribute.Реквизит1", "Other files"),
    ] {
        let changes = vec![
            DisplayChange {
                target: DisplayTarget::Metadata { group: group.to_owned(), path: logical.to_owned() },
                index: None,
                worktree: Some(Change::Modified),
            },
            DisplayChange {
                target: DisplayTarget::File(b"notes.txt".to_vec()),
                index: None,
                worktree: Some(Change::Modified),
            },
        ];
        let output = render_human(&changes, "clean", "Changes", other, &labels(english), false);
        assert!(output.contains(logical), "{output}");
        assert!(output.find(logical).unwrap() < output.find(other).unwrap());
        assert!(output.contains(&format!("    ✎ {logical}")), "{output}");
        assert!(!output.contains("\x1b["), "{output:?}");

        let styled = render_human(&changes, "clean", "Changes", other, &labels(english), true);
        assert!(styled.contains("\x1b[1;36m"), "{styled:?}");
        assert!(styled.contains("\x1b[1;33m✎\x1b[0m"), "{styled:?}");
        assert!(styled.contains(logical), "{styled}");
    }
}

fn rendered(parts: &[LabelPart], english: bool) -> String {
    let kind = |key: &str| -> String {
        match (key, english) {
        ("diff-metadata-catalog", false) => "Справочник",
        ("diff-metadata-catalog", true) => "Catalog",
        ("diff-metadata-attribute", false) => "Реквизит",
        ("diff-metadata-attribute", true) => "Attribute",
        _ => key,
        }
        .to_owned()
    };
    parts
        .iter()
        .map(|part| match &part.name {
            Some(name) => format!("{}.{name}", kind(&part.kind_key)),
            None => kind(&part.kind_key),
        })
        .collect::<Vec<_>>()
        .join(".")
}

#[test]
fn semantic_object_hierarchy_is_localized() {
    let parts = semantic_object_parts("catalog:Контрагенты/attribute:Код%2FАртикул%3A1%25");
    assert_eq!(parts.len(), 2);
    assert_eq!(parts[0].kind_key, "diff-metadata-catalog");
    assert_eq!(parts[1].name.as_deref(), Some("Код/Артикул:1%"));
    for (english, expected) in [
        (false, "Справочник.Контрагенты.Реквизит.Код/Артикул:1%"),
        (true, "Catalog.Контрагенты.Attribute.Код/Артикул:1%"),
    ] {
        assert_eq!(rendered(&parts, english), expected);
    }
    let bare = semantic_object_parts("catalog");
    assert_eq!(bare.len(), 1);
    assert_eq!(bare[0].name, None);
}

#[test]
fn metadata_paths_translate_each_kind() {
    let parts = metadata_path_parts(&vec![
        ("catalog".to_owned(), Some("Контрагенты".to_owned())),
        ("attribute".to_owned(), Some("Реквизит1".to_owned())),
    ]);
    assert_eq!(rendered(&parts, true), "Catalog.Контрагенты.Attribute.Реквизит1");
}

#[test]
fn unescaping_gives_back_escaped_names() {
    for (name, escaped) in [
        ("Код/Артикул:1%", "Код%2FАртикул%3A1%25"),
        ("%2F", "%252F"),
        ("%3A:/", "%253A%3A%2F"),
        ("plain", "plain"),
    ] {
        assert_eq!(unescape_object_name(escaped), name);
    }
}
