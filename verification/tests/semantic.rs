use eska_cli::changes::{semantic_event_key, SemanticEventKind};
use eska_cli::diff::Change;
use eska_cli::semantic::{
    location_sort_key, semantic_declaration_rank, semantic_event_change,
    semantic_event_group_key, semantic_event_group_kind, semantic_event_kind_rank,
    semantic_event_sort_key, semantic_event_target, semantic_stage_key, semantic_stage_rank,
    append_semantic_event_groups, sort_semantic_changes, ChangeStage, SemanticHumanChange,
    SemanticHumanStage, SemanticLabels, SourceLocation, aggregate_semantic_events, SemanticEventRow,
};

#[test]
fn routines_show_kind_name_and_position() {
    assert_eq!(
        semantic_event_target(
            "ОбщийМодуль.Обмен",
            Some("Выполнить"),
            SemanticEventKind::MethodChanged,
            Some(SourceLocation { line: 4, column: 2 }),
            "Функция",
            "Процедура"
        ),
        "ОбщийМодуль.Обмен — Процедура.Выполнить (4, 2)"
    );
    assert_eq!(
        semantic_event_target(
            "ОбщийМодуль.Обмен",
            Some("Значение"),
            SemanticEventKind::FunctionChanged,
            Some(SourceLocation { line: 9, column: 1 }),
            "Функция",
            "Процедура"
        ),
        "ОбщийМодуль.Обмен — Функция.Значение (9, 1)"
    );
    assert_eq!(
        semantic_event_target("ОбщийМодуль.Новый", None, SemanticEventKind::ObjectAdded, None, "F", "P"),
        "ОбщийМодуль.Новый"
    );
}

#[test]
fn workspace_stages_merge() {
    let mut stage = SemanticHumanStage::from_stage(ChangeStage::Index);
    stage.merge(ChangeStage::Worktree);
    assert_eq!(stage, SemanticHumanStage::IndexAndWorktree);
    let mut revision = SemanticHumanStage::from_stage(ChangeStage::Revision);
    revision.merge(ChangeStage::Index);
    assert_eq!(revision, SemanticHumanStage::Revision);
    let mut index = SemanticHumanStage::from_stage(ChangeStage::Index);
    index.merge(ChangeStage::Index);
    assert_eq!(index, SemanticHumanStage::Index);
}

#[test]
fn semantic_ranks_and_keys() {
    assert_eq!(semantic_event_change(SemanticEventKind::FunctionAdded), Change::Added);
    assert_eq!(semantic_event_change(SemanticEventKind::FormChanged), Change::Modified);
    assert_eq!(semantic_event_group_kind(SemanticEventKind::FunctionRemoved), SemanticEventKind::MethodRemoved);
    assert_eq!(semantic_event_group_key(SemanticEventKind::MethodAdded), "diff-semantic-routine-added");
    assert_eq!(semantic_event_group_key(SemanticEventKind::FormChanged), "diff-semantic-form-changed");
    assert_eq!(semantic_event_key(SemanticEventKind::MetadataAttributeChanged), "diff-semantic-metadata-attribute-changed");
    assert_eq!(semantic_event_kind_rank(SemanticEventKind::ModuleChanged), 2);
    assert_eq!(semantic_stage_rank(SemanticHumanStage::Revision), 3);
    assert_eq!(semantic_stage_key(SemanticHumanStage::IndexAndWorktree), "diff-semantic-index-and-worktree");
    assert_eq!(semantic_declaration_rank(SemanticEventKind::FunctionChanged), 1);
    assert_eq!(location_sort_key(None), (usize::MAX, usize::MAX));
    assert_eq!(location_sort_key(Some(SourceLocation { line: 3, column: 7 })), (3, 7));
    assert_eq!(
        semantic_event_sort_key(SemanticEventKind::ObjectRemoved, SemanticHumanStage::Worktree),
        (2, 0, 1)
    );
}

fn russian_semantic_labels() -> SemanticLabels {
    SemanticLabels {
        object_added: "Добавлен объект".to_owned(),
        object_removed: "Удалён объект".to_owned(),
        object_changed: "Изменён объект".to_owned(),
        module_changed: "Изменён модуль".to_owned(),
        routine_added: "Добавлен метод".to_owned(),
        routine_removed: "Удалён метод".to_owned(),
        routine_changed: "Изменён метод".to_owned(),
        form_changed: "Изменена форма".to_owned(),
        metadata_attribute_changed: "Изменено свойство".to_owned(),
        index: "в индексе".to_owned(),
        worktree: "в рабочей копии".to_owned(),
        index_and_worktree: "в индексе и рабочей копии".to_owned(),
        revision: "между ревизиями".to_owned(),
    }
}

fn human_change(
    object: &str,
    target: &str,
    location: Option<SourceLocation>,
    kind: SemanticEventKind,
    stage: SemanticHumanStage,
) -> SemanticHumanChange {
    SemanticHumanChange {
        object: object.to_owned(),
        target: target.to_owned(),
        location,
        kind,
        stage,
    }
}

#[test]
fn semantic_groups_match_file_diff_presentation() {
    let labels = russian_semantic_labels();
    let changes = vec![
        human_change(
            "ОбщийМодуль.Обмен",
            "ОбщийМодуль.Обмен — Процедура.Выполнить (4, 2)",
            Some(SourceLocation { line: 4, column: 2 }),
            SemanticEventKind::MethodChanged,
            SemanticHumanStage::Worktree,
        ),
        human_change(
            "ОбщийМодуль.Обмен",
            "ОбщийМодуль.Обмен — Функция.Значение (9, 1)",
            Some(SourceLocation { line: 9, column: 1 }),
            SemanticEventKind::FunctionChanged,
            SemanticHumanStage::Worktree,
        ),
        human_change(
            "ОбщийМодуль.Новый",
            "ОбщийМодуль.Новый",
            None,
            SemanticEventKind::ObjectAdded,
            SemanticHumanStage::Index,
        ),
    ];
    let mut plain = Vec::new();
    append_semantic_event_groups(&mut plain, changes, &labels, false);
    let plain = plain.join("\n");
    assert!(
        plain.contains(
            "Изменён метод — в рабочей копии (2):\n    ✎ ОбщийМодуль.Обмен — Процедура.Выполнить (4, 2)"
        ),
        "{plain}"
    );
    assert!(
        plain.contains("Добавлен объект — в индексе (1):\n    + ОбщийМодуль.Новый"),
        "{plain}"
    );
    assert!(!plain.contains("\x1b["), "{plain:?}");

    let mut styled = Vec::new();
    append_semantic_event_groups(
        &mut styled,
        vec![human_change(
            "ОбщийМодуль.Обмен",
            "ОбщийМодуль.Обмен — Процедура.Выполнить (4, 2)",
            Some(SourceLocation { line: 4, column: 2 }),
            SemanticEventKind::MethodChanged,
            SemanticHumanStage::Worktree,
        )],
        &labels,
        true,
    );
    let styled = styled.join("\n");
    assert!(styled.contains("\x1b[1;33m"), "{styled:?}");
    assert!(styled.contains("\x1b[1;33m✎\x1b[0m"), "{styled:?}");
}

#[test]
fn semantic_changes_sort_by_state_object_position_and_target() {
    let changes = vec![
        human_change("Б", "Б", None, SemanticEventKind::ObjectAdded, SemanticHumanStage::Worktree),
        human_change("Б", "Б — Функция.Ф (3, 1)", Some(SourceLocation { line: 3, column: 1 }),
            SemanticEventKind::FunctionChanged, SemanticHumanStage::Index),
        human_change("А", "А — Процедура.П (7, 1)", Some(SourceLocation { line: 7, column: 1 }),
            SemanticEventKind::MethodChanged, SemanticHumanStage::Index),
        human_change("Б", "Б — Процедура.П (3, 1)", Some(SourceLocation { line: 3, column: 1 }),
            SemanticEventKind::MethodChanged, SemanticHumanStage::Index),
        human_change("Б", "Б — Процедура.Р", None,
            SemanticEventKind::MethodChanged, SemanticHumanStage::Index),
    ];
    let sorted = sort_semantic_changes(&changes);
    let targets: Vec<&str> = sorted.iter().map(|c| c.target.as_str()).collect();
    assert_eq!(
        targets,
        vec![
            "А — Процедура.П (7, 1)",
            "Б — Процедура.П (3, 1)",
            "Б — Функция.Ф (3, 1)",
            "Б — Процедура.Р",
            "Б",
        ]
    );
    let mut lines = Vec::new();
    append_semantic_event_groups(&mut lines, changes, &russian_semantic_labels(), false);
    assert_eq!(lines[0], "  Изменён метод — в индексе (4):");
    assert_eq!(lines[5], "  Добавлен объект — в рабочей копии (1):");
    assert_eq!(lines[6], "    + Б");
    assert_eq!(lines.len(), 7);
}

fn row(object: &str, kind: SemanticEventKind, stage: ChangeStage) -> SemanticEventRow {
    SemanticEventRow {
        group: "Catalogs".to_owned(),
        object: object.to_owned(),
        target: object.to_owned(),
        kind,
        location: None,
        stage,
    }
}

#[test]
fn the_same_change_in_index_and_worktree_is_reported_once() {
    let rows = vec![
        row("Items", SemanticEventKind::ObjectChanged, ChangeStage::Index),
        row("Units", SemanticEventKind::ObjectAdded, ChangeStage::Worktree),
        row("Items", SemanticEventKind::ObjectChanged, ChangeStage::Worktree),
        row("Items", SemanticEventKind::ObjectRemoved, ChangeStage::Index),
        row("Units", SemanticEventKind::ObjectAdded, ChangeStage::Worktree),
    ];
    let changes = aggregate_semantic_events(&rows);
    assert_eq!(changes.len(), 3);
    assert_eq!(changes[0].0, "Catalogs");
    assert_eq!(changes[0].1.object, "Items");
    assert!(changes[0].1.kind == SemanticEventKind::ObjectChanged);
    assert!(changes[0].1.stage == SemanticHumanStage::IndexAndWorktree);
    assert_eq!(changes[1].1.object, "Units");
    assert!(changes[1].1.stage == SemanticHumanStage::Worktree);
    assert!(changes[2].1.kind == SemanticEventKind::ObjectRemoved);
    assert!(changes[2].1.stage == SemanticHumanStage::Index);
}

#[test]
fn revision_changes_keep_their_stage_and_positions_tell_changes_apart() {
    let mut first = row("CommonModule.Tools", SemanticEventKind::MethodChanged, ChangeStage::Revision);
    first.location = Some(SourceLocation { line: 3, column: 1 });
    let mut second = row("CommonModule.Tools", SemanticEventKind::MethodChanged, ChangeStage::Revision);
    second.location = Some(SourceLocation { line: 9, column: 1 });
    let changes = aggregate_semantic_events(&vec![first, second]);
    assert_eq!(changes.len(), 2);
    assert!(changes[0].1.stage == SemanticHumanStage::Revision);
    assert!(changes[1].1.location == Some(SourceLocation { line: 9, column: 1 }));
}
