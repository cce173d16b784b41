//! Menu key bindings, with the Russian-layout navigation fallback, and the
//! terminal size and clipping rules of the menu.

use vstd::prelude::*;
use vstd::string::*;
use crate::text::{decimal_text, push_decimal, push_str};

verus! {

/// A key, as far as the menu tells keys apart.
#[derive(Clone, Copy, Debug, PartialEq, Eq, Structural)]
pub enum KeyCode {
    Up,
    Down,
    Home,
    End,
    Enter,
    Esc,
    Char(char),
    /// Any key that the menu has no binding for.
    Other,
}

/// Whether a key went down, is held, or went up.
#[derive(Clone, Copy, Debug, PartialEq, Eq, Structural)]
pub enum KeyEventKind {
    Press,
    Repeat,
    Release,
}

/// The set of held modifier keys, one bit each.
#[derive(Clone, Copy, Debug, PartialEq, Eq, Structural)]
pub struct KeyModifiers {
    pub bits: u8,
}

pub const SHIFT: u8 = 1;
pub const CONTROL: u8 = 2;
pub const ALT: u8 = 4;
pub const SUPER: u8 = 8;
pub const HYPER: u8 = 16;
pub const META: u8 = 32;

/// One key event.
#[derive(Clone, Copy, Debug, PartialEq, Eq, Structural)]
pub struct KeyEvent {
    pub code: KeyCode,
    pub modifiers: KeyModifiers,
    pub kind: KeyEventKind,
}

impl KeyEvent {
    /// A key press with the given modifiers.
    pub fn new(code: KeyCode, modifiers: KeyModifiers) -> (event: KeyEvent)
        ensures
            event == (KeyEvent { code, modifiers, kind: KeyEventKind::Press }),
    {
        KeyEvent { code, modifiers, kind: KeyEventKind::Press }
    }

    /// A key event of the given kind.
    pub fn new_with_kind(code: KeyCode, modifiers: KeyModifiers, kind: KeyEventKind) -> (event: KeyEvent)
        ensures
            event == (KeyEvent { code, modifiers, kind }),
    {
        KeyEvent { code, modifiers, kind }
    }
}

/// What a key does in a menu.
#[derive(Clone, Copy, Debug, PartialEq, Eq, Structural)]
pub enum Action {
    Move(usize),
    Confirm(usize),
    Cancel,
    Ignore,
}

pub open spec fn navigation_key_spec(code: KeyCode) -> KeyCode {
    match code {
        KeyCode::Char('о') => KeyCode::Char('j'),
        KeyCode::Char('л') => KeyCode::Char('k'),
        KeyCode::Char('п') => KeyCode::Char('g'),
        KeyCode::Char('П') => KeyCode::Char('G'),
        _ => code,
    }
}

/// The Latin navigation key at the same place of the Russian layout; any
/// other key is itself.
pub fn navigation_key(code: KeyCode) -> (key: KeyCode)
    ensures
        key == navigation_key_spec(code),
{
    match code {
        KeyCode::Char('о') => KeyCode::Char('j'),
        KeyCode::Char('л') => KeyCode::Char('k'),
        KeyCode::Char('п') => KeyCode::Char('g'),
        KeyCode::Char('П') => KeyCode::Char('G'),
        _ => code,
    }
}

/// The meaning of a key in a menu of `count` entries with entry `selected`
/// highlighted.
pub open spec fn action_spec(key: KeyEvent, selected: int, count: int) -> Action {
    if key.kind == KeyEventKind::Release {
        Action::Ignore
    } else if key.code == KeyCode::Esc || (key.modifiers.bits == CONTROL && (key.code == KeyCode::Char('c')
        || key.code == KeyCode::Char('d'))) {
        Action::Cancel
    } else if count == 0 || key.modifiers.bits & (CONTROL | ALT | SUPER) != 0 {
        Action::Ignore
    } else {
        match navigation_key_spec(key.code) {
            KeyCode::Up | KeyCode::Char('k') => Action::Move(((selected + count - 1) % count) as usize),
            KeyCode::Down | KeyCode::Char('j') => Action::Move(((selected + 1) % count) as usize),
            KeyCode::Home | KeyCode::Char('g') => Action::Move(0),
            KeyCode::End | KeyCode::Char('G') => Action::Move((count - 1) as usize),
            KeyCode::Enter => if key.kind == KeyEventKind::Press {
                Action::Confirm(selected as usize)
            } else {
                Action::Ignore
            },
            KeyCode::Char(c) => if '1' <= c <= '9' && key.kind == KeyEventKind::Press && (c as u32 - 49) < count {
                Action::Confirm((c as u32 - 49) as usize)
            } else {
                Action::Ignore
            },
            _ => Action::Ignore,
        }
    }
}

/// Whether working out the action of a key overflows the counter: moving up
/// adds the highlighted index to the number of entries, and moving down adds
/// one to it, so only these moves can overflow.
pub open spec fn action_overflows(key: KeyEvent, selected: int, count: int) -> bool {
    &&& key.kind != KeyEventKind::Release
    &&& !(key.code == KeyCode::Esc || (key.modifiers.bits == CONTROL && (key.code == KeyCode::Char('c')
        || key.code == KeyCode::Char('d'))))
    &&& count != 0
    &&& key.modifiers.bits & (CONTROL | ALT | SUPER) == 0
    &&& match navigation_key_spec(key.code) {
        KeyCode::Up | KeyCode::Char('k') => selected + count > usize::MAX,
        KeyCode::Down | KeyCode::Char('j') => selected + 1 > usize::MAX,
        _ => false,
    }
}

/// What a key does: moving wraps around, a digit or Enter confirms only on a
/// press (never on a repeat or a release), Esc and Ctrl+C or Ctrl+D cancel.
pub fn action(key: KeyEvent, selected: usize, count: usize) -> (r: Action)
    requires
        !action_overflows(key, selected as int, count as int),
    ensures
        r == action_spec(key, selected as int, count as int),
{
    if key.kind == KeyEventKind::Release {
        return Action::Ignore;
    }
    if key.code == KeyCode::Esc || (key.modifiers.bits == CONTROL && (key.code == KeyCode::Char('c')
        || key.code == KeyCode::Char('d'))) {
        return Action::Cancel;
    }
    if count == 0 || key.modifiers.bits & (CONTROL | ALT | SUPER) != 0 {
        return Action::Ignore;
    }
    match navigation_key(key.code) {
        KeyCode::Up | KeyCode::Char('k') => Action::Move((selected + count - 1) % count),
        KeyCode::Down | KeyCode::Char('j') => Action::Move((selected + 1) % count),
        KeyCode::Home | KeyCode::Char('g') => Action::Move(0),
        KeyCode::End | KeyCode::Char('G') => Action::Move(count - 1),
        KeyCode::Enter => {
            if key.kind == KeyEventKind::Press {
                Action::Confirm(selected)
            } else {
                Action::Ignore
            }
        },
        KeyCode::Char(c) => {
            if '1' <= c && c <= '9' && key.kind == KeyEventKind::Press {
                let index = (c as u32 - 49) as usize;
                if index < count {
                    Action::Confirm(index)
                } else {
                    Action::Ignore
                }
            } else {
                Action::Ignore
            }
        },
        _ => Action::Ignore,
    }
}

/// A menu of `count` entries fits a terminal at least 50 columns wide with
/// ten rows to spare.
pub fn fits(size: (u16, u16), count: usize) -> (r: bool)
    ensures
        r == (size.0 >= 50 && size.1 as int >= count + 10),
{
    size.0 >= 50 && (size.1 as usize) >= count && (size.1 as usize) - count >= 10
}

/// The text of a menu row, cut to the width minus a three-column margin;
/// nothing is drawn below the last row or in a terminal of three columns or fewer.
pub fn clip_line(text: &str, row: u16, width: u16, height: u16) -> (r: Option<String>)
    ensures
        row < height && width > 3 ==> (r matches Some(t) && t@ == text@.subrange(
            0,
            if text@.len() < width - 3 {
                text@.len() as int
            } else {
                width - 3
            },
        )),
        !(row < height && width > 3) ==> r is None,
{
    if row < height && width > 3 {
        let n = text.unicode_len();
        let keep = (width - 3) as usize;
        let end = if n < keep {
            n
        } else {
            keep
        };
        Some(text.substring_char(0, end).to_owned())
    } else {
        None
    }
}

/// The Russian-layout navigation keys act exactly as the Latin keys at the
/// same place (о as j, л as k, п as g, П as G), with any modifiers and in any
/// phase of the key.
pub proof fn lemma_russian_layout_matches_latin(
    modifiers: KeyModifiers,
    kind: KeyEventKind,
    selected: usize,
    count: usize,
)
    ensures
        action_spec(KeyEvent { code: KeyCode::Char('о'), modifiers, kind }, selected as int, count as int)
            == action_spec(KeyEvent { code: KeyCode::Char('j'), modifiers, kind }, selected as int, count as int),
        action_spec(KeyEvent { code: KeyCode::Char('л'), modifiers, kind }, selected as int, count as int)
            == action_spec(KeyEvent { code: KeyCode::Char('k'), modifiers, kind }, selected as int, count as int),
        action_spec(KeyEvent { code: KeyCode::Char('п'), modifiers, kind }, selected as int, count as int)
            == action_spec(KeyEvent { code: KeyCode::Char('g'), modifiers, kind }, selected as int, count as int),
        action_spec(KeyEvent { code: KeyCode::Char('П'), modifiers, kind }, selected as int, count as int)
            == action_spec(KeyEvent { code: KeyCode::Char('G'), modifiers, kind }, selected as int, count as int),
{
}

/// A released key never acts, and a held (repeated) key never confirms: a
/// menu cannot be confirmed by the key that confirmed the previous one.
pub proof fn lemma_only_a_press_confirms(key: KeyEvent, selected: usize, count: usize)
    ensures
        key.kind == KeyEventKind::Release ==> action_spec(key, selected as int, count as int) == Action::Ignore,
        action_spec(key, selected as int, count as int) is Confirm ==> key.kind == KeyEventKind::Press,
{
}

/// An empty menu can only be cancelled; every move lands on an entry of the
/// menu; every confirmation names an entry of the menu or the highlighted
/// one, and so an entry of the menu while the highlighted one is.
pub proof fn lemma_actions_stay_in_menu(key: KeyEvent, selected: usize, count: usize)
    ensures
        count == 0 ==> (action_spec(key, selected as int, count as int) is Cancel || action_spec(
            key,
            selected as int,
            count as int,
        ) is Ignore),
        action_spec(key, selected as int, count as int) matches Action::Move(i) ==> i < count,
        action_spec(key, selected as int, count as int) matches Action::Confirm(i) ==> i < count || i == selected,
        selected < count ==> (action_spec(key, selected as int, count as int) matches Action::Confirm(i) ==> i < count),
{
}

/// An event that a menu receives.
pub enum MenuEvent {
    /// The terminal now has this many columns and rows.
    Resize(u16, u16),
    Key(KeyEvent),
    /// Anything else, pasted text among it.
    Other,
}

/// What a menu does after an event.
#[derive(Clone, Copy, Debug, PartialEq, Eq, Structural)]
pub enum MenuStep {
    /// Draw the menu again.
    Redraw,
    /// The choice at this index is taken.
    Confirm(usize),
    Cancel,
    /// Wait for the next event.
    Wait,
}

/// The state of an open menu: the highlighted entry and the terminal size.
pub struct MenuState {
    pub selected: usize,
    pub size: (u16, u16),
}

pub open spec fn fits_spec(size: (u16, u16), count: int) -> bool {
    size.0 >= 50 && size.1 as int >= count + 10
}

/// One step of a menu of `count` entries: a resize redraws it; a key acts
/// as [`action`] says, except that nothing but cancellation acts while the
/// menu does not fit the terminal; other events are ignored.
pub open spec fn menu_step_spec(selected: usize, size: (u16, u16), count: usize, event: MenuEvent) -> (usize, (u16, u16), MenuStep) {
    match event {
        MenuEvent::Resize(w, h) => (selected, (w, h), MenuStep::Redraw),
        MenuEvent::Key(key) => match action_spec(key, selected as int, count as int) {
            Action::Cancel => (selected, size, MenuStep::Cancel),
            Action::Move(i) => if fits_spec(size, count as int) {
                (i, size, MenuStep::Redraw)
            } else {
                (selected, size, MenuStep::Wait)
            },
            Action::Confirm(i) => if fits_spec(size, count as int) {
                (selected, size, MenuStep::Confirm(i))
            } else {
                (selected, size, MenuStep::Wait)
            },
            Action::Ignore => (selected, size, MenuStep::Wait),
        },
        MenuEvent::Other => (selected, size, MenuStep::Wait),
    }
}

impl MenuState {
    /// A menu with its first entry highlighted.
    pub fn new(size: (u16, u16)) -> (state: MenuState)
        ensures
            state.selected == 0,
            state.size == size,
    {
        MenuState { selected: 0, size }
    }

    /// Applies one event to the menu and says what to do next.
    pub fn step(&mut self, count: usize, event: MenuEvent) -> (r: MenuStep)
        requires
            old(self).selected < count,
            event matches MenuEvent::Key(k) ==> !action_overflows(k, old(self).selected as int, count as int),
        ensures
            (final(self).selected, final(self).size, r) == menu_step_spec(old(self).selected, old(self).size, count, event),
            final(self).selected < count,
    {
        match event {
            MenuEvent::Resize(w, h) => {
                self.size = (w, h);
                MenuStep::Redraw
            },
            MenuEvent::Key(key) => {
                let a = action(key, self.selected, count);
                match a {
                    Action::Cancel => MenuStep::Cancel,
                    Action::Move(i) => {
                        if fits(self.size, count) {
                            self.selected = i;
                            MenuStep::Redraw
                        } else {
                            MenuStep::Wait
                        }
                    },
                    Action::Confirm(i) => {
                        if fits(self.size, count) {
                            MenuStep::Confirm(i)
                        } else {
                            MenuStep::Wait
                        }
                    },
                    Action::Ignore => MenuStep::Wait,
                }
            },
            MenuEvent::Other => MenuStep::Wait,
        }
    }
}

/// A menu never takes an entry that the terminal cannot show: a
/// confirmation comes only from a key press while the menu fits, and names
/// one of its entries.
pub proof fn lemma_confirm_only_visible(selected: usize, size: (u16, u16), count: usize, event: MenuEvent)
    requires
        selected < count,
    ensures
        menu_step_spec(selected, size, count, event).2 matches MenuStep::Confirm(i) ==> {
            &&& fits_spec(size, count as int)
            &&& i < count
            &&& event matches MenuEvent::Key(k) && k.kind == KeyEventKind::Press
        },
{
    lemma_actions_stay_in_menu_any(selected, count, event);
}

proof fn lemma_actions_stay_in_menu_any(selected: usize, count: usize, event: MenuEvent)
    requires
        selected < count,
    ensures
        event matches MenuEvent::Key(k) ==> (action_spec(k, selected as int, count as int) matches Action::Confirm(i) ==> i < count && k.kind == KeyEventKind::Press),
{
    if let MenuEvent::Key(k) = event {
        lemma_actions_stay_in_menu(k, selected, count);
        lemma_only_a_press_confirms(k, selected, count);
    }
}

/// How a menu line is drawn.
#[derive(Clone, Copy, Debug, PartialEq, Eq, Structural)]
pub enum LineStyle {
    Plain,
    Bold,
    /// The highlighted entry: bold cyan.
    Selected,
    Dim,
}

/// One line of a menu: the row, the text from the third column on, and its style.
pub struct MenuLine {
    pub row: u16,
    pub text: String,
    pub style: LineStyle,
}

/// The translated texts of a menu.
pub struct MenuTexts {
    pub heading: String,
    pub title: String,
    pub resize: String,
    pub navigation_hint: String,
    pub digit_hint: String,
    pub cancel_hint: String,
}

pub type LineView = (int, Seq<char>, LineStyle);

pub open spec fn lines_view(lines: Seq<MenuLine>) -> Seq<LineView> {
    lines.map_values(|l: MenuLine| (l.row as int, l.text@, l.style))
}

/// The part of a line that is drawn: nothing below the last row or in a
/// terminal of three columns or fewer, otherwise the text cut to the width
/// minus a three-column margin.
pub open spec fn drawn(row: int, text: Seq<char>, width: int, height: int, style: LineStyle) -> Seq<LineView> {
    if row < height && width > 3 {
        seq![(row, text.subrange(0, if text.len() < width - 3 { text.len() as int } else { width - 3 }), style)]
    } else {
        Seq::empty()
    }
}

pub open spec fn choice_text(selected: bool, number: nat, label: Seq<char>, value: Seq<char>) -> Seq<char> {
    (if selected { "›"@ } else { " "@ }) + " "@ + decimal_text(number) + "  "@ + label + " ("@ + value + ")"@
}

/// The lines of the first `choices.len()` entries.
pub open spec fn choice_lines(choices: Seq<(String, String)>, selected: int, width: int, height: int, styled: bool) -> Seq<LineView>
    decreases choices.len(),
{
    if choices.len() == 0 {
        Seq::empty()
    } else {
        let index = choices.len() - 1;
        let choice = choices.last();
        choice_lines(choices.drop_last(), selected, width, height, styled) + drawn(
            index + 5,
            choice_text(index == selected, (index + 1) as nat, choice.1@, choice.0@),
            width,
            height,
            if styled && index == selected { LineStyle::Selected } else { LineStyle::Plain },
        )
    }
}

/// The whole menu: a request to enlarge the terminal when the menu does not
/// fit, otherwise heading, title, numbered entries and the key hints.
pub open spec fn menu_spec(texts: MenuTexts, choices: Seq<(String, String)>, selected: int, width: int, height: int, styled: bool) -> Seq<LineView> {
    if !(width >= 50 && height >= choices.len() + 10) {
        drawn(0, texts.resize@, width, height, LineStyle::Plain) + drawn(2, texts.cancel_hint@, width, height, LineStyle::Plain)
    } else {
        let hint = if styled { LineStyle::Dim } else { LineStyle::Plain };
        let footer = choices.len() as int + 6;
        drawn(1, texts.heading@, width, height, if styled { LineStyle::Bold } else { LineStyle::Plain })
            + drawn(3, texts.title@, width, height, LineStyle::Plain)
            + choice_lines(choices, selected, width, height, styled)
            + drawn(footer, texts.navigation_hint@, width, height, hint)
            + drawn(footer + 1, texts.digit_hint@, width, height, hint)
            + drawn(footer + 2, texts.cancel_hint@, width, height, hint)
    }
}

fn push_line(lines: &mut Vec<MenuLine>, row: u16, text: &str, width: u16, height: u16, style: LineStyle)
    ensures
        lines_view(final(lines)@) == lines_view(old(lines)@) + drawn(row as int, text@, width as int, height as int, style),
{
    let ghost before = lines_view(lines@);
    match clip_line(text, row, width, height) {
        Some(clipped) => {
            lines.push(MenuLine { row, text: clipped, style });
            assert(lines_view(lines@) =~= before + drawn(row as int, text@, width as int, height as int, style));
        },
        None => {
            assert(lines_view(lines@) =~= before + drawn(row as int, text@, width as int, height as int, style));
        },
    }
}

/// Lays out a menu of `choices` (each a value and its translated label)
/// with entry `selected` highlighted, for a terminal of `size` columns and rows.
pub fn menu_lines(texts: &MenuTexts, choices: &Vec<(String, String)>, selected: usize, size: (u16, u16), styled: bool) -> (lines: Vec<MenuLine>)
    ensures
        lines_view(lines@) == menu_spec(*texts, choices@, selected as int, size.0 as int, size.1 as int, styled),
{
    let (width, height) = size;
    let mut lines: Vec<MenuLine> = Vec::new();
    if !fits(size, choices.len()) {
        push_line(&mut lines, 0, texts.resize.as_str(), width, height, LineStyle::Plain);
        push_line(&mut lines, 2, texts.cancel_hint.as_str(), width, height, LineStyle::Plain);
        return lines;
    }
    push_line(&mut lines, 1, texts.heading.as_str(), width, height, if styled { LineStyle::Bold } else { LineStyle::Plain });
    push_line(&mut lines, 3, texts.title.as_str(), width, height, LineStyle::Plain);
    let ghost head = lines_view(lines@);
    let mut index: usize = 0;
    while index < choices.len()
        invariant
            index <= choices@.len(),
            choices@.len() + 10 <= height,
            lines_view(lines@) == head + choice_lines(choices@.subrange(0, index as int), selected as int, width as int, height as int, styled),
        decreases choices.len() - index,
    {
        let is_selected = index == selected;
        let mut text = String::new();
        push_str(&mut text, if is_selected { "›" } else { " " });
        push_str(&mut text, " ");
        push_decimal(&mut text, (index + 1) as u64);
        push_str(&mut text, "  ");
        push_str(&mut text, choices[index].1.as_str());
        push_str(&mut text, " (");
        push_str(&mut text, choices[index].0.as_str());
        push_str(&mut text, ")");
        let row = (index + 5) as u16;
        push_line(&mut lines, row, text.as_str(), width, height, if styled && is_selected { LineStyle::Selected } else { LineStyle::Plain });
        proof {
            let prefix = choices@.subrange(0, index + 1);
            assert(prefix.drop_last() =~= choices@.subrange(0, index as int));
            assert(prefix.last() == choices@[index as int]);
        }
        index = index + 1;
    }
    assert(choices@.subrange(0, choices@.len() as int) =~= choices@);
    let footer = (choices.len() + 6) as u16;
    let hint = if styled { LineStyle::Dim } else { LineStyle::Plain };
    push_line(&mut lines, footer, texts.navigation_hint.as_str(), width, height, hint);
    push_line(&mut lines, footer + 1, texts.digit_hint.as_str(), width, height, hint);
    push_line(&mut lines, footer + 2, texts.cancel_hint.as_str(), width, height, hint);
    lines
}

} // verus!
