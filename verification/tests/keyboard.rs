use eska_cli::keyboard::{
    action, clip_line, fits, menu_lines, navigation_key, Action, KeyCode, KeyEvent, KeyEventKind,
    KeyModifiers, LineStyle, MenuEvent, MenuState, MenuStep, MenuTexts, ALT, CONTROL, SHIFT, SUPER,
};

const NONE: KeyModifiers = KeyModifiers { bits: 0 };

fn modifiers(bits: u8) -> KeyModifiers {
    KeyModifiers { bits }
}

fn press(code: KeyCode, selected: usize) -> Action {
    action(KeyEvent::new(code, NONE), selected, 4)
}

#[test]
fn arrows_and_vim_keys_move_and_wrap_without_confirming() {
    for code in [KeyCode::Down, KeyCode::Char('j')] {
        assert_eq!(press(code, 0), Action::Move(1));
        assert_eq!(press(code, 3), Action::Move(0));
    }
    for code in [KeyCode::Up, KeyCode::Char('k')] {
        assert_eq!(press(code, 2), Action::Move(1));
        assert_eq!(press(code, 0), Action::Move(3));
    }
    for code in [KeyCode::Home, KeyCode::Char('g')] {
        assert_eq!(press(code, 3), Action::Move(0));
    }
    for code in [KeyCode::End, KeyCode::Char('G')] {
        assert_eq!(press(code, 0), Action::Move(3));
    }
    assert_eq!(press(KeyCode::Enter, 2), Action::Confirm(2));
}

#[test]
fn digits_select_immediately_and_ignore_out_of_range_values() {
    for (index, digit) in ('1'..='4').enumerate() {
        assert_eq!(press(KeyCode::Char(digit), 0), Action::Confirm(index));
    }
    for digit in ['0', '5', '9', 'x', ' '] {
        assert_eq!(press(KeyCode::Char(digit), 0), Action::Ignore);
    }
}

#[test]
fn russian_navigation_matches_latin_events_including_modifiers_and_repeats() {
    for (latin, russian) in [('j', 'о'), ('k', 'л'), ('g', 'п'), ('G', 'П')] {
        for selected in 0..4 {
            for modifiers in [
                NONE,
                KeyModifiers { bits: SHIFT },
                KeyModifiers { bits: CONTROL },
                KeyModifiers { bits: ALT },
                KeyModifiers { bits: SUPER },
            ] {
                for kind in [
                    KeyEventKind::Press,
                    KeyEventKind::Repeat,
                    KeyEventKind::Release,
                ] {
                    let latin = KeyEvent::new_with_kind(KeyCode::Char(latin), modifiers, kind);
                    let russian = KeyEvent::new_with_kind(KeyCode::Char(russian), modifiers, kind);
                    assert_eq!(action(russian, selected, 4), action(latin, selected, 4));
                }
            }
        }
    }
}

#[test]
fn fallback_does_not_translate_unrelated_keys_or_control_shortcuts() {
    for character in ['р', 'д', 'с', 'в', 'О', 'Л', 'J', 'K', 'é', 'λ'] {
        assert_eq!(
            navigation_key(KeyCode::Char(character)),
            KeyCode::Char(character)
        );
        assert_eq!(press(KeyCode::Char(character), 0), Action::Ignore);
    }
    for character in ['о', 'л', 'п', 'П', 'с', 'в'] {
        assert_eq!(
            action(KeyEvent::new(KeyCode::Char(character), modifiers(CONTROL)), 0, 4),
            Action::Ignore
        );
    }
}

#[test]
fn cancellation_and_modifiers_are_explicit() {
    assert_eq!(press(KeyCode::Esc, 0), Action::Cancel);
    for code in ['c', 'd'] {
        assert_eq!(
            action(KeyEvent::new(KeyCode::Char(code), modifiers(CONTROL)), 0, 4),
            Action::Cancel
        );
        assert_eq!(press(KeyCode::Char(code), 0), Action::Ignore);
    }
    for modifier in [CONTROL, ALT, SUPER] {
        for code in [
            KeyCode::Enter,
            KeyCode::Down,
            KeyCode::Char('1'),
            KeyCode::Char('j'),
        ] {
            assert_eq!(action(KeyEvent::new(code, modifiers(modifier)), 0, 4), Action::Ignore);
        }
    }
}

#[test]
fn release_and_repeat_cannot_confirm_the_next_menu() {
    for code in [
        KeyCode::Enter,
        KeyCode::Char('1'),
        KeyCode::Down,
        KeyCode::Esc,
    ] {
        let mut key = KeyEvent::new(code, NONE);
        key.kind = KeyEventKind::Release;
        assert_eq!(action(key, 0, 4), Action::Ignore);
    }
    for code in [KeyCode::Enter, KeyCode::Char('1')] {
        let mut key = KeyEvent::new(code, NONE);
        key.kind = KeyEventKind::Repeat;
        assert_eq!(action(key, 0, 4), Action::Ignore);
    }
    let mut key = KeyEvent::new(KeyCode::Down, NONE);
    key.kind = KeyEventKind::Repeat;
    assert_eq!(action(key, 0, 4), Action::Move(1));
}

#[test]
fn an_empty_menu_only_cancels() {
    assert_eq!(action(KeyEvent::new(KeyCode::Down, NONE), 0, 0), Action::Ignore);
    assert_eq!(action(KeyEvent::new(KeyCode::Esc, NONE), 0, 0), Action::Cancel);
    assert_eq!(action(KeyEvent::new(KeyCode::Other, NONE), 1, 4), Action::Ignore);
    assert_eq!(
        action(KeyEvent::new(KeyCode::Char('d'), modifiers(CONTROL | SHIFT)), 0, 4),
        Action::Ignore
    );
}

#[test]
fn terminal_size_and_clipping() {
    assert!(fits((80, 24), 13));
    assert!(!fits((80, 24), 15));
    assert!(!fits((49, 24), 2));
    assert!(fits((50, 14), 4));
    assert_eq!(clip_line("АБВГД", 1, 6, 24), Some("АБВ".to_owned()));
    assert_eq!(clip_line("ab", 1, 80, 24), Some("ab".to_owned()));
    assert_eq!(clip_line("ab", 24, 80, 24), None);
    assert_eq!(clip_line("ab", 0, 3, 24), None);
}

fn menu_texts() -> MenuTexts {
    MenuTexts {
        heading: "New project".to_owned(),
        title: "Project type".to_owned(),
        resize: "Enlarge the terminal".to_owned(),
        navigation_hint: "Up/Down to move, Enter to choose".to_owned(),
        digit_hint: "A digit chooses at once".to_owned(),
        cancel_hint: "Esc cancels".to_owned(),
    }
}

fn project_choices() -> Vec<(String, String)> {
    vec![
        ("configuration".to_owned(), "Configuration".to_owned()),
        ("extension".to_owned(), "Extension".to_owned()),
        ("processing".to_owned(), "Data processor".to_owned()),
        ("report".to_owned(), "Report".to_owned()),
    ]
}

#[test]
fn menus_are_localized_and_selection_is_visible_without_color() {
    for styled in [true, false] {
        let lines = menu_lines(&menu_texts(), &project_choices(), 1, (80, 24), styled);
        let rows: Vec<u16> = lines.iter().map(|line| line.row).collect();
        assert_eq!(rows, vec![1, 3, 5, 6, 7, 8, 10, 11, 12]);
        assert_eq!(lines[0].text, "New project");
        assert_eq!(lines[1].text, "Project type");
        assert_eq!(lines[2].text, "  1  Configuration (configuration)");
        assert_eq!(lines[3].text, "› 2  Extension (extension)");
        assert_eq!(lines.iter().filter(|line| line.text.contains('›')).count(), 1);
        assert_eq!(lines[6].text, "Up/Down to move, Enter to choose");
        assert_eq!(lines[7].text, "A digit chooses at once");
        assert_eq!(lines[8].text, "Esc cancels");
        let expected_selected = if styled { LineStyle::Selected } else { LineStyle::Plain };
        assert_eq!(lines[3].style, expected_selected);
        assert_eq!(lines[2].style, LineStyle::Plain);
        assert_eq!(lines[0].style == LineStyle::Bold, styled);
        assert_eq!(lines[6].style == LineStyle::Dim, styled);
    }
}

#[test]
fn small_terminal_requests_resize_without_showing_invisible_choices() {
    for size in [(49, 24), (80, 13), (0, 0), (2, 2)] {
        assert!(!fits(size, 4));
        let lines = menu_lines(&menu_texts(), &project_choices(), 0, size, true);
        assert!(lines.iter().all(|line| !line.text.contains("onfiguration")));
        if size.0 > 40 {
            assert_eq!(lines.len(), 2);
            assert_eq!(lines[0].row, 0);
            assert_eq!(lines[0].text, "Enlarge the terminal");
            assert_eq!(lines[1].row, 2);
            assert_eq!(lines[1].text, "Esc cancels");
        } else {
            assert!(lines.is_empty());
        }
    }
    assert!(fits((50, 14), 4));
    assert_eq!(clip_line("АБВГД", 0, 6, 1), Some("АБВ".to_owned()));
    let narrow = menu_lines(&menu_texts(), &project_choices(), 0, (8, 24), false);
    assert_eq!(narrow[0].text, "Enlar");
}

#[test]
fn menus_never_confirm_what_the_terminal_cannot_show() {
    let mut menu = MenuState::new((40, 24));
    let down = || MenuEvent::Key(KeyEvent::new(KeyCode::Down, NONE));
    assert_eq!(menu.step(4, down()), MenuStep::Wait);
    assert_eq!(menu.selected, 0);
    assert_eq!(menu.step(4, MenuEvent::Key(KeyEvent::new(KeyCode::Char('2'), NONE))), MenuStep::Wait);
    assert_eq!(menu.step(4, MenuEvent::Key(KeyEvent::new(KeyCode::Esc, NONE))), MenuStep::Cancel);
    assert_eq!(menu.step(4, MenuEvent::Resize(80, 24)), MenuStep::Redraw);
    assert_eq!(menu.size, (80, 24));
    assert_eq!(menu.step(4, down()), MenuStep::Redraw);
    assert_eq!(menu.selected, 1);
    assert_eq!(menu.step(4, MenuEvent::Other), MenuStep::Wait);
    assert_eq!(menu.step(4, MenuEvent::Key(KeyEvent::new(KeyCode::Enter, NONE))), MenuStep::Confirm(1));
    let held = KeyEvent::new_with_kind(KeyCode::Enter, NONE, KeyEventKind::Repeat);
    assert_eq!(menu.step(4, MenuEvent::Key(held)), MenuStep::Wait);
}
