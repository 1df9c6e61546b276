use gem_finder::pacing::{
    cutoff_year, era_windows, more_pages, pause_before, pause_millis, progress_due, Pause,
    PAGE_DELAY_MS, WAVE_DELAY_MS, WAVE_SIZE,
};

#[test]
fn pauses_between_requests() {
    assert_eq!(pause_before(0), Pause::NoPause);
    assert_eq!(pause_before(1), Pause::Short);
    assert_eq!(pause_before(WAVE_SIZE - 1), Pause::Short);
    assert_eq!(pause_before(WAVE_SIZE), Pause::Wave);
    assert_eq!(pause_before(WAVE_SIZE + 1), Pause::Short);
    assert_eq!(pause_before(2 * WAVE_SIZE), Pause::Wave);
    assert_eq!(pause_millis(Pause::NoPause), 0);
    assert_eq!(pause_millis(Pause::Short), PAGE_DELAY_MS);
    assert_eq!(pause_millis(Pause::Wave), WAVE_DELAY_MS);
}

#[test]
fn paging_stops_at_last_or_cap() {
    assert!(more_pages(1, 3, 500));
    assert!(!more_pages(3, 3, 500));
    assert!(!more_pages(5, 40, 5));
    assert!(!more_pages(1, 0, 500));
}

#[test]
fn sync_cutoff_year() {
    assert_eq!(cutoff_year(None, 2025), 2022);
    assert_eq!(cutoff_year(Some(1984), 2025), 1984);
    assert_eq!(cutoff_year(Some(2030), 2025), 2022);
}

#[test]
fn progress_reports() {
    assert!(progress_due(50, 120));
    assert!(progress_due(100, 120));
    assert!(progress_due(120, 120));
    assert!(!progress_due(51, 120));
}

#[test]
fn era_window_table() {
    let w = era_windows();
    assert_eq!(w.len(), 4);
    assert_eq!((w[0].start, w[0].end), (1960, Some(1984)));
    assert_eq!((w[3].start, w[3].end), (2012, None));
}
