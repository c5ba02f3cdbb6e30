use lp_diff::diff_model::DiffKind;
use lp_diff::session::{FlashLevel, HaystackEntry, SOLVE_CACHE_CAPACITY, SolveCache, YankState, build_haystack, longest_entry_name};
use lp_diff::state::Section;

#[test]
fn an_error_flash_does_not_expire() {
    let mut flash = YankState { flash: Some(std::time::Instant::now()), message: "Yanked: x".to_owned(), level: FlashLevel::Success };
    assert!(flash.expires(), "a success expires on the timer");
    flash.level = FlashLevel::Failure;
    assert!(!flash.expires(), "an error must not expire on its own");
    flash.clear();
    assert!(flash.flash.is_none());
    assert!(flash.message.is_empty());
    assert!(!flash.expires(), "nothing showing, nothing to expire");
}

#[test]
fn solve_cache_round_trip_and_eviction() {
    let mut cache: SolveCache<u32> = SolveCache::new();
    cache.file("file1".to_owned(), 1);
    assert!(cache.take("file2").is_none(), "a different input must miss the cache");
    assert_eq!(cache.take("file1"), Some(1), "the closed result must be cached");
    assert!(cache.take("file1").is_none(), "a restored entry must leave the cache");

    // Past capacity the oldest entry is dropped, the newest kept.
    for index in 0..=SOLVE_CACHE_CAPACITY {
        cache.file(format!("file{index}"), index as u32);
    }
    assert_eq!(cache.len(), SOLVE_CACHE_CAPACITY, "the cache must not grow past its capacity");
    assert!(cache.take("file0").is_none(), "the oldest entry must be evicted");
    assert_eq!(cache.take(&format!("file{SOLVE_CACHE_CAPACITY}")), Some(SOLVE_CACHE_CAPACITY as u32), "the newest entry must survive");
}

#[test]
fn refiling_a_key_replaces_its_entry() {
    let mut cache: SolveCache<&str> = SolveCache::new();
    cache.file("both".to_owned(), "old");
    cache.file("file1".to_owned(), "one");
    cache.file("both".to_owned(), "new");
    assert_eq!(cache.len(), 2, "a key is filed once");
    assert_eq!(cache.take("both"), Some("new"));
    assert_eq!(cache.take("file1"), Some("one"));
    assert_eq!(cache.len(), 0);
}

#[test]
fn the_haystack_lists_sections_in_order_with_their_names() {
    let variables = vec![("x".to_owned(), DiffKind::Added), ("y".to_owned(), DiffKind::Modified)];
    let constraints = vec![("c1".to_owned(), DiffKind::Removed)];
    let objectives = vec![("obj".to_owned(), DiffKind::Renamed)];
    let (haystack, names) = build_haystack(&variables, &constraints, &objectives);
    assert_eq!(names, vec!["x", "y", "c1", "obj"]);
    assert_eq!(
        haystack,
        vec![
            HaystackEntry { section: Section::Variables, index: 0, kind: DiffKind::Added },
            HaystackEntry { section: Section::Variables, index: 1, kind: DiffKind::Modified },
            HaystackEntry { section: Section::Constraints, index: 0, kind: DiffKind::Removed },
            HaystackEntry { section: Section::Objectives, index: 0, kind: DiffKind::Renamed },
        ]
    );
}

#[test]
fn the_longest_name_is_measured_in_columns() {
    assert_eq!(longest_entry_name(&vec![]), 0);
    assert_eq!(longest_entry_name(&vec!["ab".to_owned(), "abcd".to_owned(), "a".to_owned()]), 4);
    // Wide characters take two columns each.
    assert_eq!(longest_entry_name(&vec!["abc".to_owned(), "\u{65e5}\u{672c}".to_owned()]), 4);
}
