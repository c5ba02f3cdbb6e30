use lp_diff::keys::{
    Action, CtrlAction, Key, KeyRoute, PopupKey, YankChord, ctrl_action, escape_focus, help_key, normal_action, palette_key, popup_step,
    route_key, search_popup_key, suspends, yank_chord,
};
use lp_diff::nav::mouse_capture_message;
use lp_diff::state::{DiffFilter, Focus, Section};

#[test]
fn ctrl_c_quits_from_anywhere_and_overlays_take_keys_in_order() {
    assert_eq!(route_key(false, true, true, true, true, true, true), KeyRoute::Ignore, "releases are ignored");
    assert_eq!(route_key(true, true, true, true, true, true, true), KeyRoute::Quit);
    assert_eq!(route_key(true, false, true, true, true, true, true), KeyRoute::SearchPopup);
    assert_eq!(route_key(true, false, false, true, true, true, true), KeyRoute::Palette);
    assert_eq!(route_key(true, false, false, false, true, true, true), KeyRoute::WhatIf);
    assert_eq!(route_key(true, false, false, false, false, true, true), KeyRoute::Solver);
    assert_eq!(route_key(true, false, false, false, false, false, true), KeyRoute::Help);
    assert_eq!(route_key(true, false, false, false, false, false, false), KeyRoute::Normal);
}

#[test]
fn the_help_overlay_scrolls_and_any_other_key_closes_it() {
    assert_eq!(help_key(Key::Char('j'), 3), (4, true));
    assert_eq!(help_key(Key::Up, 0), (0, true));
    assert_eq!(help_key(Key::End, 3), (u16::MAX, true));
    assert_eq!(help_key(Key::Down, u16::MAX), (u16::MAX, true));
    assert_eq!(help_key(Key::Char('x'), 9), (0, false));
}

#[test]
fn a_yank_chord_names_its_target() {
    assert_eq!(yank_chord(Key::Char('o'), false), YankChord::YankOld);
    assert_eq!(yank_chord(Key::Char('n'), false), YankChord::YankNew);
    assert_eq!(yank_chord(Key::Char('o'), true), YankChord::DiffOnly);
    assert_eq!(yank_chord(Key::Char('y'), true), YankChord::YankName);
    assert_eq!(yank_chord(Key::Char('j'), false), YankChord::FallThrough);
}

#[test]
fn the_normal_keymap() {
    assert_eq!(normal_action(Key::Char('q')), Some(Action::Quit));
    assert_eq!(normal_action(Key::Char('3')), Some(Action::GoSection(Section::Constraints)));
    assert_eq!(normal_action(Key::Char('m')), Some(Action::Filter(DiffFilter::Modified)));
    assert_eq!(normal_action(Key::Down), normal_action(Key::Char('j')));
    assert_eq!(normal_action(Key::BackTab), Some(Action::CycleFocus));
    assert_eq!(normal_action(Key::Char('z')), None);
    assert!(normal_action(Key::Char('t')).is_some_and(|action| action.diff_only()));
    assert!(normal_action(Key::Char('w')).is_some_and(|action| !action.diff_only()));
}

#[test]
fn ctrl_chords_page_by_the_focused_panel() {
    assert_eq!(ctrl_action(Key::Char('d'), Focus::NameList, 22, 10), Some(CtrlAction::PageDown(10)));
    assert_eq!(ctrl_action(Key::Char('b'), Focus::Detail, 22, 10), Some(CtrlAction::PageUp(8)));
    assert_eq!(ctrl_action(Key::Char('f'), Focus::SectionSelector, 22, 10), Some(CtrlAction::PageDown(0)));
    assert_eq!(ctrl_action(Key::Char('p'), Focus::NameList, 0, 0), Some(CtrlAction::OpenPalette));
    assert_eq!(ctrl_action(Key::Char('x'), Focus::NameList, 0, 0), None);
    assert_eq!(escape_focus(Focus::Detail, true), Focus::NameList);
    assert_eq!(escape_focus(Focus::Detail, false), Focus::SectionSelector);
    assert_eq!(escape_focus(Focus::NameList, true), Focus::SectionSelector);
}

#[test]
fn search_popup_keeps_plain_j_and_k_for_the_query() {
    assert_eq!(search_popup_key(Key::Char('j'), false), PopupKey::Edit);
    assert_eq!(search_popup_key(Key::Char('k'), false), PopupKey::Edit);
    assert_eq!(search_popup_key(Key::Char('j'), true), PopupKey::Next);
    assert_eq!(search_popup_key(Key::Char('k'), true), PopupKey::Previous);
    assert_eq!(search_popup_key(Key::Down, false), PopupKey::Next);
    assert_eq!(search_popup_key(Key::Tab, false), PopupKey::Complete);
    assert_eq!(search_popup_key(Key::Esc, true), PopupKey::Close);
    assert_eq!(search_popup_key(Key::Enter, false), PopupKey::Confirm);
}

#[test]
fn palette_moves_with_ctrl_n_and_ctrl_p_only() {
    assert_eq!(palette_key(Key::Char('n'), true), PopupKey::Next);
    assert_eq!(palette_key(Key::Char('p'), true), PopupKey::Previous);
    assert_eq!(palette_key(Key::Char('j'), true), PopupKey::Edit);
    assert_eq!(palette_key(Key::Tab, false), PopupKey::Edit);
    assert_eq!(palette_key(Key::Up, false), PopupKey::Previous);
}

#[test]
fn popup_steps_stop_at_the_ends() {
    assert_eq!(popup_step(0, 3, true), 1);
    assert_eq!(popup_step(2, 3, true), 2);
    assert_eq!(popup_step(0, 3, false), 0);
    assert_eq!(popup_step(2, 3, false), 1);
    assert_eq!(popup_step(0, 0, true), 0);
}

#[test]
fn capital_m_hands_the_mouse_over_and_says_what_for() {
    assert_eq!(normal_action(Key::Char('M')), Some(Action::ToggleMouse));
    assert!(!Action::ToggleMouse.diff_only(), "works in both modes");
    assert!(mouse_capture_message(false).contains("select text"), "releasing it says what for");
    assert!(mouse_capture_message(true).starts_with("Mouse on"));
}

#[test]
fn ctrl_z_suspends_and_nothing_else_does() {
    assert!(suspends(true, Key::Char('z')));
    assert!(!suspends(false, Key::Char('z')), "a plain z is a key like any other");
    assert!(!suspends(true, Key::Char('c')));
}
