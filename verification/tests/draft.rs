use eska_cli::draft::{
    render_draft, render_workspace_draft, DraftEvent, DraftFile, DraftProject, DraftTexts,
};

fn texts() -> DraftTexts {
    DraftTexts {
        subject_files: "Update files".to_owned(),
        subject_objects: "Update objects".to_owned(),
    }
}

fn event(object: &str, label: &str, kind: &str, member: Option<&str>, path: &str) -> DraftEvent {
    DraftEvent {
        object: object.to_owned(),
        object_label: label.to_owned(),
        kind_label: kind.to_owned(),
        member: member.map(str::to_owned),
        path: path.as_bytes().to_vec(),
        subject: format!("Update \u{2068}{label}\u{2069}"),
    }
}

fn file(path: &str) -> DraftFile {
    DraftFile {
        path: path.as_bytes().to_vec(),
        line: format!("- Changed file \u{2068}{path}\u{2069}."),
    }
}

#[test]
fn one_object_names_its_group_and_covers_its_file() {
    let events = vec![
        event("catalog:Partners", "Catalog.Partners", "Module changed", Some("Save"), "Catalogs/Partners/Ext/ObjectModule.bsl"),
        event("catalog:Partners", "Catalog.Partners", "Attribute changed", None, "Catalogs/Partners.xml"),
    ];
    let files = vec![
        file("Catalogs/Partners/Ext/ObjectModule.bsl"),
        file("Catalogs/Partners.xml"),
        file("notes.txt"),
    ];
    let draft = render_draft(&events, &Vec::new(), &files, &texts());
    assert_eq!(
        draft,
        "feat(catalog): Update Catalog.Partners\n\n\
         - Attribute changed: Catalog.Partners.\n\
         - Changed file notes.txt.\n\
         - Module changed: Catalog.Partners — Save."
    );
}

#[test]
fn files_alone_make_a_chore_and_fallbacks_stay_listed() {
    let files = vec![file("b.txt"), file("a.txt"), file("a.txt")];
    assert_eq!(
        render_draft(&Vec::new(), &Vec::new(), &files, &texts()),
        "chore: Update files\n\n- Changed file a.txt.\n- Changed file b.txt."
    );
    let events = vec![event("document:Order", "Document.Order", "Form changed", None, "Documents/Order.xml")];
    let fallbacks = vec![b"Documents/Order.xml".to_vec()];
    let draft = render_draft(&events, &fallbacks, &vec![file("Documents/Order.xml")], &texts());
    assert_eq!(
        draft,
        "feat(document): Update Document.Order\n\n\
         - Changed file Documents/Order.xml.\n\
         - Form changed: Document.Order."
    );
}

#[test]
fn objects_of_several_groups_have_no_scope() {
    let events = vec![
        event("catalog:Partners", "Catalog.Partners", "Object changed", None, "a.xml"),
        event("document:Order", "Document.Order", "Object changed", None, "b.xml"),
    ];
    let draft = render_draft(&events, &Vec::new(), &Vec::new(), &texts());
    assert!(draft.starts_with("feat: Update objects\n\n"), "{draft}");
    let same_group = vec![
        event("catalog:Partners", "Catalog.Partners", "Object changed", None, "a.xml"),
        event("catalog:Goods", "Catalog.Goods", "Object changed", None, "b.xml"),
    ];
    let draft = render_draft(&same_group, &Vec::new(), &Vec::new(), &texts());
    assert!(draft.starts_with("feat(catalog): Update objects\n\n"), "{draft}");
}

#[test]
fn workspace_lines_name_their_project() {
    let projects = vec![
        DraftProject {
            name: "main".to_owned(),
            events: vec![event("catalog:Partners", "Catalog.Partners", "Object changed", None, "a.xml")],
            fallback_paths: Vec::new(),
            files: vec![
                DraftFile { path: b"a.xml".to_vec(), line: "- Changed file main/a.xml.".to_owned() },
                DraftFile { path: b"c.txt".to_vec(), line: "- Changed file main/c.txt.".to_owned() },
            ],
        },
        DraftProject {
            name: "extension".to_owned(),
            events: vec![event("catalog:Partners", "Catalog.Partners", "Object changed", None, "a.xml")],
            fallback_paths: Vec::new(),
            files: Vec::new(),
        },
    ];
    let outside = vec![file("README.md")];
    let draft = render_workspace_draft(&projects, Some(&outside), &texts());
    assert_eq!(
        draft,
        "feat(catalog): Update objects\n\n\
         - Changed file README.md.\n\
         - Changed file main/c.txt.\n\
         - Object changed: Catalog.Partners — extension.\n\
         - Object changed: Catalog.Partners — main."
    );
    let one = render_workspace_draft(&projects[..1].iter().map(|p| DraftProject {
        name: p.name.clone(),
        events: vec![event("catalog:Partners", "Catalog.Partners", "Object changed", None, "a.xml")],
        fallback_paths: Vec::new(),
        files: Vec::new(),
    }).collect(), None, &texts());
    assert_eq!(one, "feat(catalog): Update Catalog.Partners\n\n- Object changed: Catalog.Partners — main.");
    let empty = render_workspace_draft(&Vec::new(), None, &texts());
    assert_eq!(empty, "chore: Update files\n");
}
