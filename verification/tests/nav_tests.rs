use lp_diff::nav::{
    Cursor, ListArea, MouseEffect, MouseInput, MouseTarget, clamp_selection, clicked_row, clicked_tab, cycle_section, find_position,
    max_detail_scroll, repeat_cursor, reselect_position, resize_sidebar, selector_step,
};
use lp_diff::state::{Focus, Section};

fn list(selected: Option<usize>) -> Cursor {
    Cursor { focus: Focus::NameList, selected, detail_scroll: 7 }
}

#[test]
fn paging_stays_inside_the_list() {
    let mut cursor = list(Some(3));
    cursor.page_down(10, 8, 0);
    assert_eq!(cursor.selected, Some(7), "clamped to the last row");
    assert_eq!(cursor.detail_scroll, 0, "a moved selection resets the detail scroll");
    cursor.page_up(10, 8);
    assert_eq!(cursor.selected, Some(0), "clamped to the first row");

    let mut cursor = list(None);
    cursor.page_down(2, 8, 0);
    assert_eq!(cursor.selected, Some(2), "nothing selected counts from the top");
}

#[test]
fn paging_down_then_up_returns_to_the_start() {
    let mut cursor = list(Some(2));
    cursor.page_down(3, 20, 0);
    cursor.page_up(3, 20);
    assert_eq!(cursor.selected, Some(2));
}

#[test]
fn paging_does_nothing_where_there_is_nothing_to_move() {
    let before = list(Some(1));
    let mut cursor = before;
    cursor.page_down(0, 8, 0);
    assert_eq!(cursor, before, "a zero step");
    cursor.page_down(4, 0, 0);
    assert_eq!(cursor, before, "an empty list");
    let mut tabs = Cursor { focus: Focus::SectionSelector, selected: Some(1), detail_scroll: 3 };
    tabs.page_down(4, 8, 10);
    assert_eq!(tabs, Cursor { focus: Focus::SectionSelector, selected: Some(1), detail_scroll: 3 });
}

#[test]
fn the_detail_panel_scrolls_within_its_content() {
    let mut detail = Cursor { focus: Focus::Detail, selected: Some(1), detail_scroll: 5 };
    detail.page_down(10, 8, 12);
    assert_eq!(detail.detail_scroll, 12);
    detail.page_up(20, 8);
    assert_eq!(detail.detail_scroll, 0);
    detail.jump_to_bottom(8, 12);
    assert_eq!(detail.detail_scroll, 12);
    detail.jump_to_top(8);
    assert_eq!(detail.detail_scroll, 0);
    assert_eq!(detail.selected, Some(1), "scrolling leaves the selection alone");
    assert_eq!(max_detail_scroll(10, 30), 22, "eight lines fit inside the borders");
    assert_eq!(max_detail_scroll(1, 30), 30);
    assert_eq!(max_detail_scroll(40, 30), 0);
}

#[test]
fn focus_moves_between_the_panels() {
    let mut cursor = Cursor { focus: Focus::SectionSelector, selected: None, detail_scroll: 4 };
    cursor.cycle_focus_forward(true);
    assert_eq!((cursor.focus, cursor.selected), (Focus::NameList, Some(0)));
    cursor.cycle_focus_forward(true);
    assert_eq!((cursor.focus, cursor.detail_scroll), (Focus::Detail, 0));
    cursor.focus_sidebar(true);
    assert_eq!(cursor.focus, Focus::NameList);
    cursor.focus_detail();
    cursor.focus_sidebar(false);
    assert_eq!(cursor.focus, Focus::SectionSelector);
}

#[test]
fn a_recomputed_list_keeps_the_selection_where_it_can() {
    assert_eq!(clamp_selection(Some(5), 3), Some(2));
    assert_eq!(clamp_selection(Some(1), 0), None);
    assert_eq!(clamp_selection(Some(1), 3), Some(1));
    assert_eq!(clamp_selection(None, 3), None);
    let visible = vec![4, 9, 2];
    assert_eq!(find_position(&visible, 9), Some(1));
    assert_eq!(reselect_position(&visible, Some(2)), (Some(2), true));
    assert_eq!(reselect_position(&visible, Some(7)), (Some(0), false), "a hidden entry falls back to the first row");
    assert_eq!(reselect_position(&vec![], Some(7)), (None, false));
}

#[test]
fn repeating_a_search_wraps_around() {
    assert_eq!(repeat_cursor(2, 3, true), 0);
    assert_eq!(repeat_cursor(0, 3, false), 2);
    assert_eq!(repeat_cursor(repeat_cursor(1, 3, true), 3, false), 1);
}

#[test]
fn sections_and_the_sidebar_cycle_within_bounds() {
    assert_eq!(cycle_section(Section::Numerics, true), Section::Summary);
    assert_eq!(cycle_section(Section::Summary, false), Section::Numerics);
    assert_eq!(cycle_section(Section::Variables, true), Section::Constraints);
    assert_eq!(resize_sidebar(198, true), 200);
    assert_eq!(resize_sidebar(-198, false), -200);
    assert_eq!(resize_sidebar(0, true), 4);
}

fn wheel_cursor(focus: Focus, selected: Option<usize>, detail_scroll: usize) -> Cursor {
    Cursor { focus, selected, detail_scroll }
}

#[test]
fn wheel_over_the_name_list_moves_the_selection_without_moving_focus() {
    let area = ListArea { top: 1, offset: 0, len: 4 };
    let mut cursor = wheel_cursor(Focus::Detail, Some(1), 5);
    let effect = cursor.mouse(MouseTarget::NameList, MouseInput::WheelDown, area, 10, &vec![]);
    assert_eq!(effect, MouseEffect::Nothing);
    assert_eq!(cursor, wheel_cursor(Focus::Detail, Some(2), 0));
    cursor.mouse(MouseTarget::NameList, MouseInput::WheelDown, area, 10, &vec![]);
    cursor.mouse(MouseTarget::NameList, MouseInput::WheelDown, area, 10, &vec![]);
    assert_eq!(cursor.selected, Some(3), "the wheel stops at the last row");
    let mut fresh = wheel_cursor(Focus::NameList, None, 0);
    fresh.mouse(MouseTarget::NameList, MouseInput::WheelUp, area, 10, &vec![]);
    assert_eq!(fresh.selected, Some(0), "a wheel up with nothing selected selects the first row");
}

#[test]
fn wheel_over_the_detail_panel_scrolls_three_lines() {
    let area = ListArea { top: 1, offset: 0, len: 0 };
    let mut cursor = wheel_cursor(Focus::NameList, Some(0), 2);
    cursor.mouse(MouseTarget::Detail, MouseInput::WheelDown, area, 7, &vec![]);
    assert_eq!(cursor.detail_scroll, 5);
    cursor.mouse(MouseTarget::Detail, MouseInput::WheelDown, area, 7, &vec![]);
    assert_eq!(cursor.detail_scroll, 7, "capped at the largest useful offset");
    cursor.mouse(MouseTarget::Detail, MouseInput::WheelUp, area, 7, &vec![]);
    cursor.mouse(MouseTarget::Detail, MouseInput::WheelUp, area, 7, &vec![]);
    cursor.mouse(MouseTarget::Detail, MouseInput::WheelUp, area, 7, &vec![]);
    assert_eq!(cursor.detail_scroll, 0);
    assert_eq!(cursor.focus, Focus::NameList);
}

#[test]
fn a_click_in_the_name_list_selects_the_row_under_it() {
    // The list's top border is on screen row 1, so row 2 is the first entry.
    let area = ListArea { top: 1, offset: 3, len: 10 };
    let mut cursor = wheel_cursor(Focus::Detail, Some(0), 4);
    cursor.mouse(MouseTarget::NameList, MouseInput::Click { column: 5, row: 4 }, area, 0, &vec![]);
    assert_eq!(cursor, wheel_cursor(Focus::NameList, Some(5), 0));
    let mut below = wheel_cursor(Focus::Detail, Some(0), 4);
    below.mouse(MouseTarget::NameList, MouseInput::Click { column: 5, row: 30 }, area, 0, &vec![]);
    assert_eq!(below, wheel_cursor(Focus::NameList, Some(0), 4), "a click below the last row only moves focus");
    assert_eq!(clicked_row(2, area), Some(3));
    assert_eq!(clicked_row(0, ListArea { top: 1, offset: 0, len: 2 }), Some(0));
}

#[test]
fn a_click_on_the_tab_bar_names_the_tab() {
    let tabs = vec![(0, 9), (9, 21), (21, 35)];
    let mut cursor = wheel_cursor(Focus::NameList, Some(2), 0);
    let effect = cursor.mouse(MouseTarget::SectionSelector, MouseInput::Click { column: 12, row: 0 }, ListArea { top: 1, offset: 0, len: 3 }, 0, &tabs);
    assert_eq!(effect, MouseEffect::OpenTab(1));
    assert_eq!(cursor.focus, Focus::SectionSelector);
    assert_eq!(clicked_tab(40, &tabs), None);
    assert_eq!(clicked_tab(9, &tabs), Some(1), "a tab's span starts at its first column");
}

#[test]
fn a_wheel_over_the_tab_bar_navigates() {
    let mut cursor = wheel_cursor(Focus::NameList, Some(2), 0);
    let effect = cursor.mouse(MouseTarget::SectionSelector, MouseInput::WheelUp, ListArea { top: 1, offset: 0, len: 3 }, 0, &vec![]);
    assert_eq!(effect, MouseEffect::Navigate(false));
    assert_eq!(cursor, wheel_cursor(Focus::NameList, Some(2), 0));
}

#[test]
fn stepping_through_the_tab_bar_stops_at_the_ends() {
    assert_eq!(selector_step(Section::Summary, true), Section::Variables);
    assert_eq!(selector_step(Section::Numerics, true), Section::Numerics);
    assert_eq!(selector_step(Section::Summary, false), Section::Summary);
    assert_eq!(selector_step(Section::Objectives, false), Section::Constraints);
}

#[test]
fn enter_drops_focus_one_panel_deeper() {
    let mut cursor = wheel_cursor(Focus::SectionSelector, None, 4);
    cursor.enter(true, false);
    assert_eq!(cursor, wheel_cursor(Focus::NameList, Some(0), 4), "from the tab bar into the list, first row selected");
    cursor.enter(true, false);
    assert_eq!(cursor, wheel_cursor(Focus::Detail, Some(0), 0), "from the list into the detail panel");
    cursor.enter(true, false);
    assert_eq!(cursor, wheel_cursor(Focus::Detail, Some(0), 0), "the detail panel is as deep as it goes");
    let mut summary = wheel_cursor(Focus::SectionSelector, None, 4);
    summary.enter(false, true);
    assert_eq!(summary, wheel_cursor(Focus::Detail, None, 0), "a static section goes straight to the detail panel");
    let mut empty = wheel_cursor(Focus::SectionSelector, None, 4);
    empty.enter(false, false);
    assert_eq!(empty, wheel_cursor(Focus::SectionSelector, None, 4), "an empty list's tab stays put");
}

#[test]
fn a_view_change_keeps_the_selected_entry() {
    // Entry 7 was selected; after the change it stands on row 1.
    let mut cursor = wheel_cursor(Focus::NameList, Some(3), 6);
    cursor.reselect_entry(&vec![2, 7, 9], Some(7));
    assert_eq!(cursor, wheel_cursor(Focus::NameList, Some(1), 6), "kept, with its scroll");
    // Entry 4 is hidden now: the first row, scrolled back to the top.
    let mut hidden = wheel_cursor(Focus::NameList, Some(3), 6);
    hidden.reselect_entry(&vec![2, 7, 9], Some(4));
    assert_eq!(hidden, wheel_cursor(Focus::NameList, Some(0), 0));
    let mut empty = wheel_cursor(Focus::NameList, Some(3), 6);
    empty.reselect_entry(&vec![], Some(4));
    assert_eq!(empty, wheel_cursor(Focus::NameList, None, 0));
}
