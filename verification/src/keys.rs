//! The keymap: which handler a key press goes to, and what each key does
//! there.
use vstd::prelude::*;

use crate::state::{DiffFilter, Focus, Section};

verus! {

/// A key as the keymap reads it.
#[derive(Debug, Clone, Copy, PartialEq, Eq, Structural)]
pub enum Key {
    Char(char),
    Tab,
    BackTab,
    Enter,
    Esc,
    Up,
    Down,
    Home,
    End,
    /// Any key the keymap gives no meaning.
    Other,
}

/// Which handler a key press goes to.
#[derive(Debug, Clone, Copy, PartialEq, Eq, Structural)]
pub enum KeyRoute {
    /// Not a press (a release or repeat report): nothing happens.
    Ignore,
    /// `Ctrl+C`: quit, whatever is open.
    Quit,
    SearchPopup,
    Palette,
    WhatIf,
    Solver,
    Help,
    Normal,
}

/// The handler for a key: presses only; `Ctrl+C` quits from anywhere; then
/// the topmost open overlay, in the order search, palette, what-if prompt,
/// solver, help; else the normal keymap.
pub open spec fn spec_route(
    press: bool,
    ctrl_c: bool,
    search_open: bool,
    palette_open: bool,
    what_if_open: bool,
    solver_open: bool,
    help_open: bool,
) -> KeyRoute {
    if !press {
        KeyRoute::Ignore
    } else if ctrl_c {
        KeyRoute::Quit
    } else if search_open {
        KeyRoute::SearchPopup
    } else if palette_open {
        KeyRoute::Palette
    } else if what_if_open {
        KeyRoute::WhatIf
    } else if solver_open {
        KeyRoute::Solver
    } else if help_open {
        KeyRoute::Help
    } else {
        KeyRoute::Normal
    }
}

/// Decide which handler a key press goes to.
pub fn route_key(
    press: bool,
    ctrl_c: bool,
    search_open: bool,
    palette_open: bool,
    what_if_open: bool,
    solver_open: bool,
    help_open: bool,
) -> (res: KeyRoute)
    ensures
        res == spec_route(press, ctrl_c, search_open, palette_open, what_if_open, solver_open, help_open),
{
    if !press {
        KeyRoute::Ignore
    } else if ctrl_c {
        KeyRoute::Quit
    } else if search_open {
        KeyRoute::SearchPopup
    } else if palette_open {
        KeyRoute::Palette
    } else if what_if_open {
        KeyRoute::WhatIf
    } else if solver_open {
        KeyRoute::Solver
    } else if help_open {
        KeyRoute::Help
    } else {
        KeyRoute::Normal
    }
}

/// Whether a key press suspends the viewer: `Ctrl+Z`, whatever is open. In
/// raw mode the terminal sends no stop signal of its own.
pub fn suspends(ctrl: bool, key: Key) -> (res: bool)
    ensures
        res == (ctrl && key == Key::Char('z')),
{
    ctrl && key == Key::Char('z')
}

/// The help overlay's scroll offset after a key, and whether the overlay
/// stays open: navigation keys scroll, any other key closes it.
pub open spec fn spec_help_key(key: Key, scroll: u16) -> (u16, bool) {
    if key == Key::Char('j') || key == Key::Down {
        (if scroll < u16::MAX { (scroll + 1) as u16 } else { u16::MAX }, true)
    } else if key == Key::Char('k') || key == Key::Up {
        (if scroll > 0 { (scroll - 1) as u16 } else { 0 }, true)
    } else if key == Key::Char('g') || key == Key::Home {
        (0, true)
    } else if key == Key::Char('G') || key == Key::End {
        (u16::MAX, true)
    } else {
        (0, false)
    }
}

/// Handle a key while the help overlay is open.
pub fn help_key(key: Key, scroll: u16) -> (res: (u16, bool))
    ensures
        res == spec_help_key(key, scroll),
{
    match key {
        Key::Char('j') | Key::Down => (scroll.saturating_add(1), true),
        Key::Char('k') | Key::Up => (scroll.saturating_sub(1), true),
        Key::Char('g') | Key::Home => (0, true),
        Key::Char('G') | Key::End => (u16::MAX, true),
        _ => (0, false),
    }
}

/// What the key after a `y` does.
#[derive(Debug, Clone, Copy, PartialEq, Eq, Structural)]
pub enum YankChord {
    /// `o` or `n` in inspect mode: there is only one file.
    DiffOnly,
    YankOld,
    YankNew,
    YankName,
    /// Any other key is handled as if no `y` came before it.
    FallThrough,
}

pub open spec fn spec_yank_chord(key: Key, inspect: bool) -> YankChord {
    if (key == Key::Char('o') || key == Key::Char('n')) && inspect {
        YankChord::DiffOnly
    } else if key == Key::Char('o') {
        YankChord::YankOld
    } else if key == Key::Char('n') {
        YankChord::YankNew
    } else if key == Key::Char('y') {
        YankChord::YankName
    } else {
        YankChord::FallThrough
    }
}

/// Complete a `y` chord.
pub fn yank_chord(key: Key, inspect: bool) -> (res: YankChord)
    ensures
        res == spec_yank_chord(key, inspect),
{
    match key {
        Key::Char('o') if inspect => YankChord::DiffOnly,
        Key::Char('n') if inspect => YankChord::DiffOnly,
        Key::Char('o') => YankChord::YankOld,
        Key::Char('n') => YankChord::YankNew,
        Key::Char('y') => YankChord::YankName,
        _ => YankChord::FallThrough,
    }
}

/// What a key does while the search pop-up or the command palette is open.
#[derive(Debug, Clone, Copy, PartialEq, Eq, Structural)]
pub enum PopupKey {
    Close,
    /// Act on the highlighted row.
    Confirm,
    /// Highlight the next row.
    Next,
    /// Highlight the previous row.
    Previous,
    /// Replace the query with the highlighted result's name (search only).
    Complete,
    /// Anything else edits the query.
    Edit,
}

/// The search pop-up's keys: `Esc` closes, `Enter` confirms, `Down` and
/// `Ctrl+n`/`Ctrl+j` move down, `Up` and `Ctrl+p`/`Ctrl+k` move up, `Tab`
/// completes; plain `j` and `k` are typed into the query, since entry names
/// routinely contain them.
pub open spec fn spec_search_popup_key(key: Key, ctrl: bool) -> PopupKey {
    if key == Key::Esc {
        PopupKey::Close
    } else if key == Key::Enter {
        PopupKey::Confirm
    } else if key == Key::Down || (ctrl && (key == Key::Char('n') || key == Key::Char('j'))) {
        PopupKey::Next
    } else if key == Key::Up || (ctrl && (key == Key::Char('p') || key == Key::Char('k'))) {
        PopupKey::Previous
    } else if key == Key::Tab {
        PopupKey::Complete
    } else {
        PopupKey::Edit
    }
}

/// What a key does in the search pop-up.
pub fn search_popup_key(key: Key, ctrl: bool) -> (res: PopupKey)
    ensures
        res == spec_search_popup_key(key, ctrl),
{
    match key {
        Key::Esc => PopupKey::Close,
        Key::Enter => PopupKey::Confirm,
        Key::Down => PopupKey::Next,
        Key::Char('n') if ctrl => PopupKey::Next,
        Key::Char('j') if ctrl => PopupKey::Next,
        Key::Up => PopupKey::Previous,
        Key::Char('p') if ctrl => PopupKey::Previous,
        Key::Char('k') if ctrl => PopupKey::Previous,
        Key::Tab => PopupKey::Complete,
        _ => PopupKey::Edit,
    }
}

/// The command palette's keys: `Esc` closes, `Enter` runs the highlighted
/// command, `Down`/`Ctrl+n` and `Up`/`Ctrl+p` move; everything else edits the
/// query.
pub open spec fn spec_palette_key(key: Key, ctrl: bool) -> PopupKey {
    if key == Key::Esc {
        PopupKey::Close
    } else if key == Key::Enter {
        PopupKey::Confirm
    } else if key == Key::Down || (ctrl && key == Key::Char('n')) {
        PopupKey::Next
    } else if key == Key::Up || (ctrl && key == Key::Char('p')) {
        PopupKey::Previous
    } else {
        PopupKey::Edit
    }
}

/// What a key does in the command palette.
pub fn palette_key(key: Key, ctrl: bool) -> (res: PopupKey)
    ensures
        res == spec_palette_key(key, ctrl),
{
    match key {
        Key::Esc => PopupKey::Close,
        Key::Enter => PopupKey::Confirm,
        Key::Down => PopupKey::Next,
        Key::Char('n') if ctrl => PopupKey::Next,
        Key::Up => PopupKey::Previous,
        Key::Char('p') if ctrl => PopupKey::Previous,
        _ => PopupKey::Edit,
    }
}

/// The highlighted row of a pop-up list of `len` rows after a step: down
/// stops at the last row and leaves an empty list alone, up stops at the
/// first row.
pub open spec fn spec_popup_step(selected: usize, len: usize, down: bool) -> usize {
    if down {
        if len == 0 {
            selected
        } else if selected + 1 < len {
            (selected + 1) as usize
        } else {
            (len - 1) as usize
        }
    } else if selected > 0 {
        (selected - 1) as usize
    } else {
        0
    }
}

/// Step the highlighted row of a pop-up list.
pub fn popup_step(selected: usize, len: usize, down: bool) -> (res: usize)
    ensures
        res == spec_popup_step(selected, len, down),
        len > 0 && selected < len ==> res < len,
{
    if down {
        if len == 0 {
            selected
        } else if selected < len - 1 {
            selected + 1
        } else {
            len - 1
        }
    } else if selected > 0 {
        selected - 1
    } else {
        0
    }
}

/// What a key does in the normal keymap.
#[derive(Debug, Clone, Copy, PartialEq, Eq, Structural)]
pub enum Action {
    Quit,
    CycleFocus,
    GoSection(Section),
    CycleSection(bool),
    NavigateDown,
    NavigateUp,
    JumpTop,
    JumpBottom,
    RepeatSearch(bool),
    Enter,
    Escape,
    FocusDetail,
    FocusSidebar,
    /// A kind filter: diff-only.
    Filter(DiffFilter),
    /// Cycle the sort mode: diff-only.
    CycleSort,
    /// Cycle the relative tolerance: diff-only.
    CycleRelTol,
    /// Cycle the absolute tolerance: diff-only.
    CycleAbsTol,
    ToggleHelp,
    BeginYank,
    YankDetail,
    Solve,
    WhatIf,
    ExportCsv,
    /// Toggle the raw text view: diff-only.
    ToggleRawView,
    /// Toggle hiding order-only changes: diff-only.
    ToggleIgnoreOrder,
    OpenSearch,
    /// Hand the mouse to the terminal for native text selection, or take it
    /// back.
    ToggleMouse,
}

impl Action {
    /// Whether the action only makes sense with two files.
    pub open spec fn spec_diff_only(self) -> bool {
        match self {
            Action::Filter(_) | Action::CycleSort | Action::CycleRelTol | Action::CycleAbsTol | Action::ToggleRawView
            | Action::ToggleIgnoreOrder => true,
            _ => false,
        }
    }

    /// Whether the action only makes sense with two files; in inspect mode
    /// such a key shows a hint instead.
    pub fn diff_only(self) -> (res: bool)
        ensures
            res == self.spec_diff_only(),
    {
        match self {
            Action::Filter(_) | Action::CycleSort | Action::CycleRelTol | Action::CycleAbsTol | Action::ToggleRawView
            | Action::ToggleIgnoreOrder => true,
            _ => false,
        }
    }
}

/// The normal keymap.
pub open spec fn spec_normal_action(key: Key) -> Option<Action> {
    match key {
        Key::Tab | Key::BackTab => Some(Action::CycleFocus),
        Key::Down => Some(Action::NavigateDown),
        Key::Up => Some(Action::NavigateUp),
        Key::Home => Some(Action::JumpTop),
        Key::End => Some(Action::JumpBottom),
        Key::Enter => Some(Action::Enter),
        Key::Esc => Some(Action::Escape),
        Key::Other => None,
        Key::Char(c) => if c == 'q' {
            Some(Action::Quit)
        } else if c == '1' {
            Some(Action::GoSection(Section::Summary))
        } else if c == '2' {
            Some(Action::GoSection(Section::Variables))
        } else if c == '3' {
            Some(Action::GoSection(Section::Constraints))
        } else if c == '4' {
            Some(Action::GoSection(Section::Objectives))
        } else if c == '5' {
            Some(Action::GoSection(Section::Numerics))
        } else if c == ']' {
            Some(Action::CycleSection(true))
        } else if c == '[' {
            Some(Action::CycleSection(false))
        } else if c == 'j' {
            Some(Action::NavigateDown)
        } else if c == 'k' {
            Some(Action::NavigateUp)
        } else if c == 'g' {
            Some(Action::JumpTop)
        } else if c == 'G' {
            Some(Action::JumpBottom)
        } else if c == 'n' {
            Some(Action::RepeatSearch(true))
        } else if c == 'N' {
            Some(Action::RepeatSearch(false))
        } else if c == 'l' {
            Some(Action::FocusDetail)
        } else if c == 'h' {
            Some(Action::FocusSidebar)
        } else if c == 'a' {
            Some(Action::Filter(DiffFilter::All))
        } else if c == '+' {
            Some(Action::Filter(DiffFilter::Added))
        } else if c == '-' {
            Some(Action::Filter(DiffFilter::Removed))
        } else if c == 'm' {
            Some(Action::Filter(DiffFilter::Modified))
        } else if c == '=' {
            Some(Action::Filter(DiffFilter::Renamed))
        } else if c == 's' {
            Some(Action::CycleSort)
        } else if c == 't' {
            Some(Action::CycleRelTol)
        } else if c == 'T' {
            Some(Action::CycleAbsTol)
        } else if c == '?' {
            Some(Action::ToggleHelp)
        } else if c == 'y' {
            Some(Action::BeginYank)
        } else if c == 'Y' {
            Some(Action::YankDetail)
        } else if c == 'S' {
            Some(Action::Solve)
        } else if c == 'E' {
            Some(Action::WhatIf)
        } else if c == 'w' {
            Some(Action::ExportCsv)
        } else if c == 'r' {
            Some(Action::ToggleRawView)
        } else if c == 'o' {
            Some(Action::ToggleIgnoreOrder)
        } else if c == '/' {
            Some(Action::OpenSearch)
        } else if c == 'M' {
            Some(Action::ToggleMouse)
        } else {
            None
        },
    }
}

/// What a key does in the normal keymap, if anything.
pub fn normal_action(key: Key) -> (res: Option<Action>)
    ensures
        res == spec_normal_action(key),
{
    match key {
        Key::Tab | Key::BackTab => Some(Action::CycleFocus),
        Key::Down => Some(Action::NavigateDown),
        Key::Up => Some(Action::NavigateUp),
        Key::Home => Some(Action::JumpTop),
        Key::End => Some(Action::JumpBottom),
        Key::Enter => Some(Action::Enter),
        Key::Esc => Some(Action::Escape),
        Key::Other => None,
        Key::Char(c) => match c {
            'q' => Some(Action::Quit),
            '1' => Some(Action::GoSection(Section::Summary)),
            '2' => Some(Action::GoSection(Section::Variables)),
            '3' => Some(Action::GoSection(Section::Constraints)),
            '4' => Some(Action::GoSection(Section::Objectives)),
            '5' => Some(Action::GoSection(Section::Numerics)),
            ']' => Some(Action::CycleSection(true)),
            '[' => Some(Action::CycleSection(false)),
            'j' => Some(Action::NavigateDown),
            'k' => Some(Action::NavigateUp),
            'g' => Some(Action::JumpTop),
            'G' => Some(Action::JumpBottom),
            'n' => Some(Action::RepeatSearch(true)),
            'N' => Some(Action::RepeatSearch(false)),
            'l' => Some(Action::FocusDetail),
            'h' => Some(Action::FocusSidebar),
            'a' => Some(Action::Filter(DiffFilter::All)),
            '+' => Some(Action::Filter(DiffFilter::Added)),
            '-' => Some(Action::Filter(DiffFilter::Removed)),
            'm' => Some(Action::Filter(DiffFilter::Modified)),
            '=' => Some(Action::Filter(DiffFilter::Renamed)),
            's' => Some(Action::CycleSort),
            't' => Some(Action::CycleRelTol),
            'T' => Some(Action::CycleAbsTol),
            '?' => Some(Action::ToggleHelp),
            'y' => Some(Action::BeginYank),
            'Y' => Some(Action::YankDetail),
            'S' => Some(Action::Solve),
            'E' => Some(Action::WhatIf),
            'w' => Some(Action::ExportCsv),
            'r' => Some(Action::ToggleRawView),
            'o' => Some(Action::ToggleIgnoreOrder),
            '/' => Some(Action::OpenSearch),
            'M' => Some(Action::ToggleMouse),
            _ => None,
        },
    }
}

/// What a `Ctrl` chord does.
#[derive(Debug, Clone, Copy, PartialEq, Eq, Structural)]
pub enum CtrlAction {
    PageDown(usize),
    PageUp(usize),
    JumpBack,
    JumpForward,
    OpenPalette,
}

/// The rows a page moves in the focused panel: the panel's height inside
/// its two borders, nothing in the tab bar.
pub open spec fn page_rows(focus: Focus, name_list_height: u16, detail_height: u16) -> nat {
    match focus {
        Focus::NameList => if name_list_height >= 2 { (name_list_height - 2) as nat } else { 0 },
        Focus::Detail => if detail_height >= 2 { (detail_height - 2) as nat } else { 0 },
        Focus::SectionSelector => 0,
    }
}

/// The `Ctrl` keymap: half pages with `d` / `u`, whole pages with `f` / `b`,
/// the jumplist with `o` / `i`, the palette with `p`.
pub open spec fn spec_ctrl_action(key: Key, focus: Focus, name_list_height: u16, detail_height: u16) -> Option<
    CtrlAction,
> {
    let rows = page_rows(focus, name_list_height, detail_height);
    if key == Key::Char('d') {
        Some(CtrlAction::PageDown((rows / 2) as usize))
    } else if key == Key::Char('u') {
        Some(CtrlAction::PageUp((rows / 2) as usize))
    } else if key == Key::Char('f') {
        Some(CtrlAction::PageDown(rows as usize))
    } else if key == Key::Char('b') {
        Some(CtrlAction::PageUp(rows as usize))
    } else if key == Key::Char('o') {
        Some(CtrlAction::JumpBack)
    } else if key == Key::Char('i') {
        Some(CtrlAction::JumpForward)
    } else if key == Key::Char('p') {
        Some(CtrlAction::OpenPalette)
    } else {
        None
    }
}

/// What a `Ctrl` chord does, given the focused panel and the panel heights
/// of the last frame; `None` when the chord means nothing, so the key is
/// handled by the normal keymap.
pub fn ctrl_action(key: Key, focus: Focus, name_list_height: u16, detail_height: u16) -> (res: Option<CtrlAction>)
    ensures
        res == spec_ctrl_action(key, focus, name_list_height, detail_height),
{
    let rows: usize = match focus {
        Focus::NameList => name_list_height.saturating_sub(2) as usize,
        Focus::Detail => detail_height.saturating_sub(2) as usize,
        Focus::SectionSelector => 0,
    };
    match key {
        Key::Char('d') => Some(CtrlAction::PageDown(rows / 2)),
        Key::Char('u') => Some(CtrlAction::PageUp(rows / 2)),
        Key::Char('f') => Some(CtrlAction::PageDown(rows)),
        Key::Char('b') => Some(CtrlAction::PageUp(rows)),
        Key::Char('o') => Some(CtrlAction::JumpBack),
        Key::Char('i') => Some(CtrlAction::JumpForward),
        Key::Char('p') => Some(CtrlAction::OpenPalette),
        _ => None,
    }
}

/// Where `Esc` moves focus: out of the detail panel to the name list when
/// it has a selection, else to the tab bar; out of the name list to the tab
/// bar.
pub fn escape_focus(focus: Focus, list_has_selection: bool) -> (res: Focus)
    ensures
        res == match focus {
            Focus::Detail => if list_has_selection {
                Focus::NameList
            } else {
                Focus::SectionSelector
            },
            _ => Focus::SectionSelector,
        },
{
    match focus {
        Focus::Detail => if list_has_selection {
            Focus::NameList
        } else {
            Focus::SectionSelector
        },
        _ => Focus::SectionSelector,
    }
}

/// Every key of the normal keymap that only makes sense with two files is
/// one of the palette's diff-only commands' keys: the kind filters, the sort
/// and tolerance cycles, the raw view and the order toggle.
pub proof fn lemma_diff_only_keys(key: Key)
    ensures
        spec_normal_action(key) matches Some(action) && action.spec_diff_only() <==> (key == Key::Char('a') || key
            == Key::Char('+') || key == Key::Char('-') || key == Key::Char('m') || key == Key::Char('=') || key
            == Key::Char('s') || key == Key::Char('t') || key == Key::Char('T') || key == Key::Char('r') || key
            == Key::Char('o')),
{
}

} // verus!
