//! Keyboard and mouse navigation over the focused panel: the selection in the
//! name list, the detail panel's scroll offset, and the repeat of the last
//! search.
use vstd::prelude::*;

use crate::state::{Focus, Section};

verus! {

/// Where the user is in the panels: which panel has focus, the highlighted
/// row of the active name list, and the detail panel's scroll offset.
#[derive(Debug, Clone, Copy, PartialEq, Eq, Structural)]
pub struct Cursor {
    pub focus: Focus,
    /// Highlighted row of the active name list, if any.
    pub selected: Option<usize>,
    pub detail_scroll: usize,
}

/// The row a downward move of `n` lands on in a list of `len` rows: `n`
/// further down, but no further than the last row.
pub open spec fn row_after_down(selected: Option<usize>, n: nat, len: nat) -> nat {
    let current = match selected {
        Some(row) => row as nat,
        None => 0,
    };
    if current + n < len { current + n } else { (len - 1) as nat }
}

/// The row an upward move of `n` lands on: `n` further up, but no further
/// than the first row.
pub open spec fn row_after_up(selected: Option<usize>, n: nat) -> nat {
    let current = match selected {
        Some(row) => row as nat,
        None => 0,
    };
    if current >= n { (current - n) as nat } else { 0 }
}

/// A scroll offset moved down by `n`, capped at `max`.
pub open spec fn scroll_after_down(scroll: nat, n: nat, max: nat) -> nat {
    if scroll + n < max { scroll + n } else { max }
}

/// The offset below which the detail panel shows nothing new: content lines
/// minus the lines visible inside the panel's two borders.
pub open spec fn spec_max_detail_scroll(detail_height: nat, content_lines: nat) -> nat {
    let visible: nat = if detail_height >= 2 { (detail_height - 2) as nat } else { 0 };
    if content_lines >= visible { (content_lines - visible) as nat } else { 0 }
}

/// Largest useful detail-panel scroll offset: content height minus the
/// visible window inside the panel's borders.
pub fn max_detail_scroll(detail_height: u16, content_lines: usize) -> (res: usize)
    ensures
        res == spec_max_detail_scroll(detail_height as nat, content_lines as nat),
{
    let visible = detail_height.saturating_sub(2) as usize;
    content_lines.saturating_sub(visible)
}

impl Cursor {
    /// Move down by `n` steps in the focused panel. Nothing moves for `n == 0`,
    /// in the tab bar, or in an empty name list; a moved selection resets
    /// the detail scroll.
    pub fn page_down(&mut self, n: usize, len: usize, max_scroll: usize)
        requires
            old(self).focus == Focus::NameList && len > 0 ==> match old(self).selected {
                Some(row) => row + n <= usize::MAX,
                None => true,
            },
        ensures
            final(self).focus == old(self).focus,
            n == 0 || old(self).focus == Focus::SectionSelector || (old(self).focus == Focus::NameList && len == 0)
                ==> *final(self) == *old(self),
            n > 0 && old(self).focus == Focus::NameList && len > 0 ==> final(self).selected == Some(
                row_after_down(old(self).selected, n as nat, len as nat) as usize,
            ) && final(self).detail_scroll == 0,
            n > 0 && old(self).focus == Focus::Detail ==> final(self).selected == old(self).selected
                && final(self).detail_scroll == scroll_after_down(
                old(self).detail_scroll as nat,
                n as nat,
                max_scroll as nat,
            ),
    {
        if n == 0 {
            return;
        }
        match self.focus {
            Focus::SectionSelector => {},
            Focus::NameList => {
                if len == 0 {
                    return;
                }
                let current = match self.selected {
                    Some(row) => row,
                    None => 0,
                };
                let new = if current + n < len { current + n } else { len - 1 };
                self.selected = Some(new);
                self.detail_scroll = 0;
            },
            Focus::Detail => {
                let moved = self.detail_scroll.saturating_add(n);
                self.detail_scroll = if moved < max_scroll { moved } else { max_scroll };
            },
        }
    }

    /// Move up by `n` steps in the focused panel. Nothing moves for `n == 0`,
    /// in the tab bar, or in an empty name list.
    pub fn page_up(&mut self, n: usize, len: usize)
        ensures
            final(self).focus == old(self).focus,
            n == 0 || old(self).focus == Focus::SectionSelector || (old(self).focus == Focus::NameList && len == 0)
                ==> *final(self) == *old(self),
            n > 0 && old(self).focus == Focus::NameList && len > 0 ==> final(self).selected == Some(
                row_after_up(old(self).selected, n as nat) as usize,
            ) && final(self).detail_scroll == 0,
            n > 0 && old(self).focus == Focus::Detail ==> final(self).selected == old(self).selected
                && final(self).detail_scroll == row_after_up(Some(old(self).detail_scroll), n as nat),
    {
        if n == 0 {
            return;
        }
        match self.focus {
            Focus::SectionSelector => {},
            Focus::NameList => {
                if len == 0 {
                    return;
                }
                let current = match self.selected {
                    Some(row) => row,
                    None => 0,
                };
                self.selected = Some(current.saturating_sub(n));
                self.detail_scroll = 0;
            },
            Focus::Detail => {
                self.detail_scroll = self.detail_scroll.saturating_sub(n);
            },
        }
    }

    /// Jump to the first row or the top of the detail panel.
    pub fn jump_to_top(&mut self, len: usize)
        ensures
            final(self).focus == old(self).focus,
            old(self).focus == Focus::NameList && len > 0 ==> final(self).selected == Some(0usize)
                && final(self).detail_scroll == 0,
            old(self).focus == Focus::Detail ==> final(self).selected == old(self).selected
                && final(self).detail_scroll == 0,
            old(self).focus == Focus::SectionSelector || (old(self).focus == Focus::NameList && len == 0)
                ==> *final(self) == *old(self),
    {
        match self.focus {
            Focus::SectionSelector => {},
            Focus::NameList => {
                if len > 0 {
                    self.selected = Some(0);
                    self.detail_scroll = 0;
                }
            },
            Focus::Detail => {
                self.detail_scroll = 0;
            },
        }
    }

    /// Jump to the last row or the bottom of the detail panel.
    pub fn jump_to_bottom(&mut self, len: usize, max_scroll: usize)
        ensures
            final(self).focus == old(self).focus,
            old(self).focus == Focus::NameList && len > 0 ==> final(self).selected == Some((len - 1) as usize)
                && final(self).detail_scroll == 0,
            old(self).focus == Focus::Detail ==> final(self).selected == old(self).selected
                && final(self).detail_scroll == max_scroll,
            old(self).focus == Focus::SectionSelector || (old(self).focus == Focus::NameList && len == 0)
                ==> *final(self) == *old(self),
    {
        match self.focus {
            Focus::SectionSelector => {},
            Focus::NameList => {
                if len > 0 {
                    self.selected = Some(len - 1);
                    self.detail_scroll = 0;
                }
            },
            Focus::Detail => {
                self.detail_scroll = max_scroll;
            },
        }
    }

    /// Toggle focus between the name list and the detail panel (`Tab`). From
    /// the detail panel or the tab bar, focus goes to the name list when it
    /// has rows, selecting the first when nothing is selected.
    pub fn cycle_focus_forward(&mut self, has_name_list: bool)
        ensures
            old(self).focus == Focus::NameList ==> final(self).focus == Focus::Detail && final(self).detail_scroll
                == 0 && final(self).selected == old(self).selected,
            old(self).focus != Focus::NameList && has_name_list ==> final(self).focus == Focus::NameList
                && final(self).detail_scroll == old(self).detail_scroll && final(self).selected == (match old(
                self,
            ).selected {
                Some(row) => Some(row),
                None => Some(0usize),
            }),
            old(self).focus != Focus::NameList && !has_name_list ==> final(self).focus == Focus::Detail
                && final(self).detail_scroll == 0 && final(self).selected == old(self).selected,
    {
        match self.focus {
            Focus::NameList => {
                self.detail_scroll = 0;
                self.focus = Focus::Detail;
            },
            Focus::Detail | Focus::SectionSelector => {
                if has_name_list {
                    if self.selected.is_none() {
                        self.selected = Some(0);
                    }
                    self.focus = Focus::NameList;
                } else {
                    self.detail_scroll = 0;
                    self.focus = Focus::Detail;
                }
            },
        }
    }

    /// `Enter` moves focus one panel deeper: from the tab bar into the name
    /// list when it has rows (selecting the first when nothing is selected),
    /// or into the detail panel for the static sections; from the name list
    /// into the detail panel. It does nothing in the detail panel, nor on the
    /// tab of an empty list.
    pub fn enter(&mut self, has_name_list: bool, static_section: bool)
        ensures
            old(self).focus == Focus::SectionSelector && has_name_list ==> *final(self) == (Cursor {
                focus: Focus::NameList,
                selected: Some(
                    match old(self).selected {
                        Some(row) => row,
                        None => 0usize,
                    },
                ),
                ..*old(self)
            }),
            old(self).focus == Focus::SectionSelector && !has_name_list && static_section ==> *final(self) == (Cursor {
                focus: Focus::Detail,
                detail_scroll: 0,
                ..*old(self)
            }),
            old(self).focus == Focus::NameList ==> *final(self) == (Cursor {
                focus: Focus::Detail,
                detail_scroll: 0,
                ..*old(self)
            }),
            old(self).focus == Focus::Detail || (old(self).focus == Focus::SectionSelector && !has_name_list
                && !static_section) ==> *final(self) == *old(self),
    {
        match self.focus {
            Focus::SectionSelector => {
                if has_name_list {
                    if self.selected.is_none() {
                        self.selected = Some(0);
                    }
                    self.focus = Focus::NameList;
                } else if static_section {
                    self.focus = Focus::Detail;
                    self.detail_scroll = 0;
                }
            },
            Focus::NameList => {
                self.focus = Focus::Detail;
                self.detail_scroll = 0;
            },
            Focus::Detail => {},
        }
    }

    /// Move focus into the detail panel, resetting its scroll when focus
    /// actually moves.
    pub fn focus_detail(&mut self)
        ensures
            final(self).focus == Focus::Detail,
            final(self).selected == old(self).selected,
            final(self).detail_scroll == (if old(self).focus == Focus::Detail {
                old(self).detail_scroll
            } else {
                0
            }),
    {
        if self.focus != Focus::Detail {
            self.focus = Focus::Detail;
            self.detail_scroll = 0;
        }
    }

    /// Move focus out of the detail panel: to the name list when it has a
    /// selection, else to the tab bar.
    pub fn focus_sidebar(&mut self, has_name_list: bool)
        ensures
            final(self).selected == old(self).selected,
            final(self).detail_scroll == old(self).detail_scroll,
            final(self).focus == (if old(self).focus != Focus::Detail {
                old(self).focus
            } else if has_name_list && old(self).selected is Some {
                Focus::NameList
            } else {
                Focus::SectionSelector
            }),
    {
        if self.focus == Focus::Detail {
            if has_name_list && self.selected.is_some() {
                self.focus = Focus::NameList;
            } else {
                self.focus = Focus::SectionSelector;
            }
        }
    }
}

/// Where the mouse pointer is when a wheel turns or a button is pressed.
#[derive(Debug, Clone, Copy, PartialEq, Eq, Structural)]
pub enum MouseTarget {
    /// The tab bar.
    SectionSelector,
    NameList,
    Detail,
    /// Anywhere else: the status bar, a border.
    Elsewhere,
}

/// A wheel turn or a left click at a screen cell.
#[derive(Debug, Clone, Copy, PartialEq, Eq, Structural)]
pub enum MouseInput {
    WheelDown,
    WheelUp,
    Click { column: u16, row: u16 },
}

/// Where the name list sits on screen: its top border's row, the list's
/// scroll offset, and how many rows it holds.
#[derive(Debug, Clone, Copy, PartialEq, Eq, Structural)]
pub struct ListArea {
    pub top: u16,
    pub offset: usize,
    pub len: usize,
}

/// What a mouse event asks of the viewer beyond the cursor itself.
#[derive(Debug, Clone, Copy, PartialEq, Eq, Structural)]
pub enum MouseEffect {
    Nothing,
    /// A wheel over the tab bar moves as `j` (`true`) or `k` would.
    Navigate(bool),
    /// A click on the tab at this position.
    OpenTab(usize),
}

/// The list row a click at screen row `row` lands on: the rows below the
/// list's top border, shifted by the list's scroll, when that row exists.
pub open spec fn spec_clicked_row(row: u16, area: ListArea) -> Option<nat> {
    let relative: nat = if row > area.top { (row - area.top - 1) as nat } else { 0 };
    if relative + area.offset < area.len {
        Some((relative + area.offset) as nat)
    } else {
        None
    }
}

/// The list row a click at screen row `row` lands on, if any.
pub fn clicked_row(row: u16, area: ListArea) -> (res: Option<usize>)
    ensures
        res matches Some(i) ==> spec_clicked_row(row, area) == Some(i as nat) && i < area.len,
        res is None <==> spec_clicked_row(row, area) is None,
{
    let relative: usize = if row > area.top { (row - area.top - 1) as usize } else { 0 };
    if relative < area.len && area.offset < area.len - relative {
        Some(relative + area.offset)
    } else {
        None
    }
}

/// Whether a tab spanning columns `start` (included) to `end` (excluded)
/// holds `column`.
pub open spec fn in_span(span: (u16, u16), column: u16) -> bool {
    span.0 <= column && column < span.1
}

/// The first tab whose column span holds `column`.
pub fn clicked_tab(column: u16, bounds: &Vec<(u16, u16)>) -> (res: Option<usize>)
    ensures
        res matches Some(i) ==> i < bounds@.len() && in_span(bounds@[i as int], column) && forall|j: int|
            0 <= j < i ==> !in_span(#[trigger] bounds@[j], column),
        res is None ==> forall|j: int| 0 <= j < bounds@.len() ==> !in_span(#[trigger] bounds@[j], column),
{
    let mut i: usize = 0;
    while i < bounds.len()
        invariant
            i <= bounds@.len(),
            forall|j: int| 0 <= j < i ==> !in_span(#[trigger] bounds@[j], column),
        decreases bounds@.len() - i,
    {
        let (start, end) = bounds[i];
        if start <= column && column < end {
            return Some(i);
        }
        i = i + 1;
    }
    None
}

/// The tab a step through the tab bar lands on: the next (`down`) or the
/// previous tab, stopping at either end.
pub open spec fn spec_selector_step(current: Section, down: bool) -> Section {
    if down {
        Section::spec_at(if current.spec_index() + 1 < 5 { current.spec_index() + 1 } else { 4 })
    } else {
        Section::spec_at(if current.spec_index() >= 1 { (current.spec_index() - 1) as nat } else { 0 })
    }
}

/// The tab a step through the tab bar lands on, without wrapping around.
pub fn selector_step(current: Section, down: bool) -> (res: Section)
    ensures
        res == spec_selector_step(current, down),
{
    let index = current.index();
    if down {
        Section::from_index(if index + 1 < 5 { index + 1 } else { 4 })
    } else {
        Section::from_index(if index >= 1 { index - 1 } else { 0 })
    }
}

impl Cursor {
    /// Apply a mouse event. A wheel over the name list moves its selection
    /// one row and over the detail panel scrolls three lines, without moving
    /// focus; a wheel over the tab bar navigates as the keys do. A click
    /// focuses the panel under it; in the name list it also selects the row
    /// clicked, and on the tab bar it names the tab clicked.
    pub fn mouse(
        &mut self,
        target: MouseTarget,
        input: MouseInput,
        area: ListArea,
        max_scroll: usize,
        tabs: &Vec<(u16, u16)>,
    ) -> (res: MouseEffect)
        ensures
            target == MouseTarget::SectionSelector && input is WheelDown ==> res == MouseEffect::Navigate(true)
                && *final(self) == *old(self),
            target == MouseTarget::SectionSelector && input is WheelUp ==> res == MouseEffect::Navigate(false)
                && *final(self) == *old(self),
            target == MouseTarget::SectionSelector && input is Click ==> final(self).focus
                == Focus::SectionSelector && final(self).selected == old(self).selected
                && final(self).detail_scroll == old(self).detail_scroll && match res {
                MouseEffect::OpenTab(i) => i < tabs@.len() && in_span(tabs@[i as int], input->column) && forall|
                    j: int,
                | 0 <= j < i ==> !in_span(#[trigger] tabs@[j], input->column),
                MouseEffect::Nothing => forall|j: int|
                    0 <= j < tabs@.len() ==> !in_span(#[trigger] tabs@[j], input->column),
                MouseEffect::Navigate(_) => false,
            },
            target == MouseTarget::NameList && !(input is Click) && area.len > 0 ==> res == MouseEffect::Nothing
                && final(self).focus == old(self).focus && final(self).detail_scroll == 0 && final(self).selected
                == Some(
                (if input is WheelDown {
                    row_after_down(old(self).selected, 1, area.len as nat)
                } else {
                    row_after_up(old(self).selected, 1)
                }) as usize,
            ),
            target == MouseTarget::NameList && input is Click ==> res == MouseEffect::Nothing && final(self).focus
                == Focus::NameList && match spec_clicked_row(input->row, area) {
                Some(i) => final(self).selected == Some(i as usize) && final(self).detail_scroll == 0,
                None => final(self).selected == old(self).selected && final(self).detail_scroll == old(
                    self,
                ).detail_scroll,
            },
            target == MouseTarget::Detail && input is WheelDown ==> res == MouseEffect::Nothing && *final(self)
                == (Cursor {
                detail_scroll: scroll_after_down(old(self).detail_scroll as nat, 3, max_scroll as nat) as usize,
                ..*old(self)
            }),
            target == MouseTarget::Detail && input is WheelUp ==> res == MouseEffect::Nothing && *final(self)
                == (Cursor { detail_scroll: row_after_up(Some(old(self).detail_scroll), 3) as usize, ..*old(self) }),
            target == MouseTarget::Detail && input is Click ==> res == MouseEffect::Nothing && *final(self)
                == (Cursor { focus: Focus::Detail, ..*old(self) }),
            target == MouseTarget::Elsewhere || (target == MouseTarget::NameList && !(input is Click) && area.len
                == 0) ==> res == MouseEffect::Nothing && *final(self) == *old(self),
    {
        match target {
            MouseTarget::SectionSelector => match input {
                MouseInput::WheelDown => MouseEffect::Navigate(true),
                MouseInput::WheelUp => MouseEffect::Navigate(false),
                MouseInput::Click { column, row: _ } => {
                    self.focus = Focus::SectionSelector;
                    match clicked_tab(column, tabs) {
                        Some(i) => MouseEffect::OpenTab(i),
                        None => MouseEffect::Nothing,
                    }
                },
            },
            MouseTarget::NameList => {
                match input {
                    MouseInput::Click { column: _, row } => {
                        self.focus = Focus::NameList;
                        if let Some(i) = clicked_row(row, area) {
                            self.selected = Some(i);
                            self.detail_scroll = 0;
                        }
                    },
                    MouseInput::WheelDown => {
                        if area.len > 0 {
                            let current = match self.selected {
                                Some(row) => row,
                                None => 0,
                            };
                            self.selected = Some(if current < area.len - 1 { current + 1 } else { area.len - 1 });
                            self.detail_scroll = 0;
                        }
                    },
                    MouseInput::WheelUp => {
                        if area.len > 0 {
                            let current = match self.selected {
                                Some(row) => row,
                                None => 0,
                            };
                            self.selected = Some(if current >= 1 { current - 1 } else { 0 });
                            self.detail_scroll = 0;
                        }
                    },
                }
                MouseEffect::Nothing
            },
            MouseTarget::Detail => {
                match input {
                    MouseInput::WheelDown => {
                        self.detail_scroll = if self.detail_scroll < max_scroll && max_scroll - self.detail_scroll > 3 {
                            self.detail_scroll + 3
                        } else {
                            max_scroll
                        };
                    },
                    MouseInput::WheelUp => {
                        self.detail_scroll = if self.detail_scroll >= 3 { self.detail_scroll - 3 } else { 0 };
                    },
                    MouseInput::Click { .. } => {
                        self.focus = Focus::Detail;
                    },
                }
                MouseEffect::Nothing
            },
            MouseTarget::Elsewhere => MouseEffect::Nothing,
        }
    }
}

/// The flash that says what the mouse is for after `M` toggles it.
pub open spec fn spec_mouse_capture_message(captured: bool) -> Seq<char> {
    if captured {
        "Mouse on: scroll and click (M to select text instead)"@
    } else {
        "Mouse off: select text with the terminal (M to restore)"@
    }
}

/// The flash after `M`: with the mouse captured the viewer scrolls and
/// clicks; released, the terminal selects text.
pub fn mouse_capture_message(captured: bool) -> (res: &'static str)
    ensures
        res@ == spec_mouse_capture_message(captured),
{
    if captured {
        "Mouse on: scroll and click (M to select text instead)"
    } else {
        "Mouse off: select text with the terminal (M to restore)"
    }
}

/// Paging keeps the selection inside a non-empty list: a move down never
/// passes the last row, and a move up from a row in the list stays in it.
pub proof fn lemma_page_moves_stay_in_list(selected: Option<usize>, n: nat, len: nat)
    requires
        len > 0,
    ensures
        row_after_down(selected, n, len) < len,
        (selected matches Some(row) && row < len) ==> row_after_up(selected, n) < len,
{
}

/// A page down that does not reach the end of the list, followed by a page
/// up of the same size, returns to the row it started on.
pub proof fn lemma_page_down_then_up(row: usize, n: nat, len: nat)
    requires
        row + n < len,
        row + n <= usize::MAX,
    ensures
        row_after_down(Some(row), n, len) == row + n,
        row_after_up(Some((row + n) as usize), n) == row,
{
}


/// A selection clamped to a list of `len` rows: dropped when the list is
/// empty, moved to the last row when past it.
pub open spec fn spec_clamp_selection(selected: Option<usize>, len: nat) -> Option<usize> {
    match selected {
        Some(row) => if len == 0 {
            None
        } else if row >= len {
            Some((len - 1) as usize)
        } else {
            Some(row)
        },
        None => None,
    }
}

/// Clamp a selection to a freshly recomputed list of `len` rows.
pub fn clamp_selection(selected: Option<usize>, len: usize) -> (res: Option<usize>)
    ensures
        res == spec_clamp_selection(selected, len as nat),
{
    match selected {
        Some(_) if len == 0 => None,
        Some(row) if row >= len => Some(len - 1),
        _ => selected,
    }
}

/// The first position of `entry` among the visible rows, if it is visible.
pub open spec fn position_of(visible: Seq<usize>, entry: usize) -> Option<int>
    decreases visible.len(),
{
    if visible.len() == 0 {
        None
    } else if visible[0] == entry {
        Some(0)
    } else {
        match position_of(visible.drop_first(), entry) {
            Some(k) => Some(k + 1),
            None => None,
        }
    }
}

/// Where `entry` (a report index) is among the visible rows, as
/// `iter().position` finds it.
pub fn find_position(visible: &Vec<usize>, entry: usize) -> (res: Option<usize>)
    ensures
        match position_of(visible@, entry) {
            Some(k) => res == Some(k as usize),
            None => res is None,
        },
        res matches Some(k) ==> k < visible@.len() && visible@[k as int] == entry,
        res is None ==> !visible@.contains(entry),
{
    let mut i: usize = 0;
    assert(visible@.skip(0) =~= visible@);
    while i < visible.len()
        invariant
            i <= visible@.len(),
            forall|k: int| 0 <= k < i ==> visible@[k] != entry,
            position_of(visible@, entry) == match position_of(visible@.skip(i as int), entry) {
                Some(k) => Some(k + i),
                None => None,
            },
        decreases visible@.len() - i,
    {
        assert(visible@.skip(i as int).drop_first() =~= visible@.skip(i + 1));
        if visible[i] == entry {
            return Some(i);
        }
        i = i + 1;
    }
    assert(visible@.skip(i as int) =~= Seq::<usize>::empty());
    None
}

/// The row to select after the list was recomputed: the entry that was
/// selected, where it now stands, or else the first row, or nothing for an
/// empty list. The flag says whether the entry was kept.
pub fn reselect_position(visible: &Vec<usize>, entry: Option<usize>) -> (res: (Option<usize>, bool))
    ensures
        res.1 == (entry matches Some(e) && visible@.contains(e)),
        res.1 ==> (entry matches Some(e) && res.0 == Some(position_of(visible@, e)->0 as usize)),
        !res.1 ==> res.0 == (if visible@.len() > 0 {
            Some(0usize)
        } else {
            None
        }),
{
    let kept = match entry {
        Some(e) => find_position(visible, e),
        None => None,
    };
    match kept {
        Some(position) => (Some(position), true),
        None => if visible.len() > 0 {
            (Some(0), false)
        } else {
            (None, false)
        },
    }
}

/// The cursor into the last search's matches after a step forward or back,
/// wrapping around at either end.
pub open spec fn spec_repeat_cursor(cursor: nat, len: nat, forward: bool) -> nat {
    if forward {
        (cursor + 1) % len
    } else {
        ((cursor + len - 1) % len as int) as nat
    }
}

/// Step the cursor into the last search's `len` matches (`n` / `N`).
pub fn repeat_cursor(cursor: usize, len: usize, forward: bool) -> (res: usize)
    requires
        len > 0,
        cursor < len,
    ensures
        res == spec_repeat_cursor(cursor as nat, len as nat, forward),
        res < len,
{
    if forward {
        (cursor + 1) % len
    } else if cursor == 0 {
        assert((0 + len - 1) % (len as int) == len - 1) by (nonlinear_arith)
            requires
                len >= 1,
        ;
        len - 1
    } else {
        assert((cursor + len - 1) % (len as int) == cursor - 1) by (nonlinear_arith)
            requires
                0 < cursor < len,
        ;
        cursor - 1
    }
}

/// A step forward through the matches and a step back return to the match
/// the cursor was on.
pub proof fn lemma_repeat_forward_then_back(cursor: nat, len: nat)
    requires
        cursor < len,
    ensures
        spec_repeat_cursor(spec_repeat_cursor(cursor, len, true), len, false) == cursor,
{
    if cursor + 1 < len {
        assert((cursor + 1) % len == cursor + 1) by (nonlinear_arith)
            requires
                cursor + 1 < len,
        ;
        assert((cursor + 1 + len - 1) % (len as int) == cursor) by (nonlinear_arith)
            requires
                cursor + 1 < len,
        ;
    } else {
        assert((cursor + 1) % len == 0) by (nonlinear_arith)
            requires
                cursor + 1 == len,
        ;
        assert((0 + len - 1) % (len as int) == len - 1) by (nonlinear_arith)
            requires
                len >= 1,
        ;
    }
}

/// The section a step through the tabs lands on, wrapping around.
pub fn cycle_section(current: Section, forward: bool) -> (res: Section)
    ensures
        res == Section::spec_at(
            if forward {
                (current.spec_index() + 1) % 5
            } else {
                (current.spec_index() + 4) % 5
            },
        ),
{
    let count: usize = 5;
    let index = current.index();
    let next = if forward { (index + 1) % count } else { (index + count - 1) % count };
    Section::from_index(next)
}

/// A sidebar width adjustment clamped to 200 columns either way.
pub open spec fn clamp_adjust(value: int) -> int {
    if value > 200 { 200 } else if value < -200 { -200 } else { value }
}

/// The sidebar width adjustment after one step of four columns wider
/// (`grow`) or narrower, kept within 200 columns either way.
pub fn resize_sidebar(adjust: i16, grow: bool) -> (res: i16)
    requires
        grow ==> adjust + 4 <= i16::MAX,
        !grow ==> adjust - 4 >= i16::MIN,
    ensures
        res == clamp_adjust(if grow { adjust + 4 } else { adjust - 4 }),
{
    let step: i16 = if grow { 4 } else { -4 };
    let moved = adjust + step;
    if moved > 200 {
        200
    } else if moved < -200 {
        -200
    } else {
        moved
    }
}

impl Cursor {
    /// Re-select `entry` (an index into the section's entries) after the
    /// list was recomputed by a filter, sort or order toggle: where it now
    /// stands, keeping the detail scroll; else the first row, or nothing in
    /// an empty list, with the detail scroll reset. A change of view must not
    /// drop the selection.
    pub fn reselect_entry(&mut self, visible: &Vec<usize>, entry: Option<usize>)
        ensures
            final(self).focus == old(self).focus,
            (entry matches Some(e) && visible@.contains(e)) ==> final(self).selected == Some(
                position_of(visible@, entry->0)->0 as usize,
            ) && final(self).detail_scroll == old(self).detail_scroll,
            !(entry matches Some(e) && visible@.contains(e)) ==> final(self).selected == (if visible@.len() > 0 {
                Some(0usize)
            } else {
                None
            }) && final(self).detail_scroll == 0,
    {
        let (row, kept) = reselect_position(visible, entry);
        self.selected = row;
        if !kept {
            self.detail_scroll = 0;
        }
    }
}

} // verus!
