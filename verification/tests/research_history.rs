use mizan::tools::research_asset::recent_history;

const DAY: i64 = 86_400_000;

#[test]
fn history_is_sorted_by_time_and_cut_at_the_window() {
    let now = 1_000 * DAY;
    let quotes = vec![(now - 2 * DAY, "b"), (now - 40 * DAY, "old"), (now - 5 * DAY, "a"), (now, "c")];
    let r = recent_history(quotes, now, 30);
    assert_eq!(r, vec![(now - 5 * DAY, "a"), (now - 2 * DAY, "b"), (now, "c")]);
}

#[test]
fn quote_exactly_at_the_cutoff_stays_and_equal_stamps_keep_their_order() {
    let now = 500 * DAY;
    let cutoff = now - 30 * DAY;
    let quotes = vec![(cutoff, "x"), (cutoff - 1, "gone"), (cutoff, "y"), (now, "z")];
    let r = recent_history(quotes, now, 30);
    assert_eq!(r, vec![(cutoff, "x"), (cutoff, "y"), (now, "z")]);
}

#[test]
fn empty_or_all_stale_history_is_empty() {
    assert!(recent_history::<u8>(Vec::new(), 10 * DAY, 1).is_empty());
    assert!(recent_history(vec![(0, 1u8), (DAY, 2u8)], 100 * DAY, 30).is_empty());
}
