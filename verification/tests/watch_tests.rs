use lp_diff::watch::{WATCH_POLL_EVERY, WatchState, poll_due, same_stamp};

const SAVED: Option<(u64, u32)> = Some((100, 0));
const EDITED: Option<(u64, u32)> = Some((105, 250));

#[test]
fn unchanged_files_never_reload() {
    let mut watch = WatchState::new(SAVED, SAVED);
    for _ in 0..4 {
        assert!(!watch.observe(SAVED, SAVED));
    }
}

#[test]
fn a_change_reloads_once_it_has_settled() {
    let mut watch = WatchState::new(SAVED, SAVED);
    assert!(!watch.observe(EDITED, SAVED), "first sighting of a change waits");
    assert!(watch.observe(EDITED, SAVED), "the same stamps on the next look reload");
    assert!(!watch.observe(EDITED, SAVED), "and only once");
    assert_eq!(watch.baseline, (EDITED, SAVED));
}

#[test]
fn a_change_still_being_written_waits() {
    let mut watch = WatchState::new(SAVED, SAVED);
    assert!(!watch.observe(Some((101, 0)), SAVED));
    assert!(!watch.observe(Some((102, 0)), SAVED), "the stamps moved again: not settled yet");
    assert!(watch.observe(Some((102, 0)), SAVED));
}

#[test]
fn a_change_undone_before_it_settled_is_forgotten() {
    let mut watch = WatchState::new(SAVED, SAVED);
    assert!(!watch.observe(EDITED, SAVED));
    assert!(!watch.observe(SAVED, SAVED), "back to what the report was built from");
    assert_eq!(watch.pending, None);
}

#[test]
fn a_vanished_file_is_a_change_too() {
    let mut watch = WatchState::new(SAVED, SAVED);
    assert!(!watch.observe(None, SAVED));
    assert!(watch.observe(None, SAVED));
    assert!(!same_stamp(None, SAVED));
    assert!(same_stamp(EDITED, Some((105, 250))));
}

#[test]
fn the_files_are_looked_at_every_fifth_tick() {
    let mut ticks = 0;
    let mut looks = 0;
    for _ in 0..20 {
        let (next, due) = poll_due(ticks);
        ticks = next;
        if due {
            looks += 1;
        }
    }
    assert_eq!(looks, 20 / WATCH_POLL_EVERY);
    assert_eq!(poll_due(u32::MAX), (0, true), "the counter wraps around");
}
