//! Pacing of bulk catalogue requests: the pause before each request (a short
//! one, and a long one at every wave boundary so the provider's sliding
//! rate-limit window recovers), when paging stops, the release-year window
//! of a sync, and when to report progress.

use vstd::prelude::*;

verus! {

/// Requests per wave; a long pause follows each full wave.
pub const WAVE_SIZE: u32 = 40;

/// Pause between two requests inside a wave, in milliseconds.
pub const PAGE_DELAY_MS: u64 = 250;

/// Pause at a wave boundary, in milliseconds.
pub const WAVE_DELAY_MS: u64 = 10000;

/// The catalogue serves at most this many result pages per query.
pub const MAX_PAGES: i32 = 500;

/// How many pages of the most-voted films count as blockbusters.
pub const BLOCKBUSTER_PAGES: i32 = 5;

/// Progress is reported after every this many processed items.
pub const PROGRESS_CHUNK: usize = 50;

/// Newest films count as gem candidates only once they are this many years old.
pub const GEM_AGE_YEARS: i32 = 3;

/// The pause before a request.
#[derive(Clone, Copy, Debug, PartialEq, Eq, Structural)]
pub enum Pause {
    /// The first request goes out at once.
    NoPause,
    /// A short pause inside a wave.
    Short,
    /// A long pause at a wave boundary.
    Wave,
}

/// The pause before a request when `done` requests went out before it.
pub open spec fn pause_spec(done: u32) -> Pause {
    if done == 0 {
        Pause::NoPause
    } else if done % WAVE_SIZE == 0 {
        Pause::Wave
    } else {
        Pause::Short
    }
}

/// The pause before the request that follows `done` earlier ones. For page
/// `p` of a listing, `done` is `p - 1`.
pub fn pause_before(done: u32) -> (r: Pause)
    ensures
        r == pause_spec(done),
{
    if done == 0 {
        Pause::NoPause
    } else if done % WAVE_SIZE == 0 {
        Pause::Wave
    } else {
        Pause::Short
    }
}

/// How long a pause lasts, in milliseconds.
pub open spec fn pause_millis_spec(p: Pause) -> u64 {
    match p {
        Pause::NoPause => 0,
        Pause::Short => PAGE_DELAY_MS,
        Pause::Wave => WAVE_DELAY_MS,
    }
}

/// How long a pause lasts, in milliseconds.
pub fn pause_millis(p: Pause) -> (r: u64)
    ensures
        r == pause_millis_spec(p),
{
    match p {
        Pause::NoPause => 0,
        Pause::Short => PAGE_DELAY_MS,
        Pause::Wave => WAVE_DELAY_MS,
    }
}

/// Out of any `WAVE_SIZE` consecutive requests after the first, exactly one
/// is preceded by the long pause: the one after `k * WAVE_SIZE` requests.
pub proof fn lemma_one_wave_pause_per_wave(k: u32)
    requires
        k >= 1,
        (k + 1) * WAVE_SIZE <= u32::MAX,
    ensures
        pause_spec((k * WAVE_SIZE) as u32) == Pause::Wave,
        forall|j: u32|
            1 <= j < WAVE_SIZE ==> #[trigger] pause_spec((k * WAVE_SIZE + j) as u32) == Pause::Short,
{
    let w: int = WAVE_SIZE as int;
    let ki: int = k as int;
    assert(ki * w + w <= u32::MAX && ki * w >= w) by (nonlinear_arith)
        requires
            w == 40,
            ki >= 1,
            (ki + 1) * w <= u32::MAX,
    ;
    assert((ki * w) % w == 0) by (nonlinear_arith)
        requires
            w == 40,
    ;
    assert forall|j: u32| 1 <= j < WAVE_SIZE implies #[trigger] pause_spec((k * WAVE_SIZE + j) as u32)
        == Pause::Short by {
        let ji: int = j as int;
        assert((ki * w + ji) % w == ji) by (nonlinear_arith)
            requires
                w == 40,
                1 <= ji < 40,
                ki >= 1,
        ;
    }
}

/// Whether another page follows page `page` of a listing with
/// `total_pages` pages, when at most `max_pages` pages are read.
pub fn more_pages(page: i32, total_pages: i32, max_pages: i32) -> (r: bool)
    ensures
        r == (page < total_pages && page < max_pages),
{
    !(page >= total_pages || page >= max_pages)
}

/// The last release year of a gem-candidate sync: the requested end year,
/// but never later than `GEM_AGE_YEARS` before the current year.
pub open spec fn cutoff_year_spec(end_year: Option<i32>, current_year: i32) -> int {
    let default_cutoff = current_year - GEM_AGE_YEARS;
    match end_year {
        Some(e) => if e < default_cutoff {
            e as int
        } else {
            default_cutoff
        },
        None => default_cutoff,
    }
}

/// The last release year of a gem-candidate sync.
pub fn cutoff_year(end_year: Option<i32>, current_year: i32) -> (r: i32)
    requires
        current_year >= i32::MIN + GEM_AGE_YEARS,
    ensures
        r == cutoff_year_spec(end_year, current_year),
        r <= current_year - GEM_AGE_YEARS,
{
    let default_cutoff = current_year - GEM_AGE_YEARS;
    match end_year {
        Some(e) => if e < default_cutoff {
            e
        } else {
            default_cutoff
        },
        None => default_cutoff,
    }
}

/// Whether progress is reported after `processed` of `total` items: after
/// every full chunk and after the last item.
pub fn progress_due(processed: usize, total: usize) -> (r: bool)
    ensures
        r == (processed % PROGRESS_CHUNK == 0 || processed == total),
{
    processed % PROGRESS_CHUNK == 0 || processed == total
}

/// A release-year window of the gem-candidate sync.
#[derive(Clone, Copy, Debug, PartialEq, Eq, Structural)]
pub struct EraWindow {
    /// First release year.
    pub start: i32,
    /// Last release year, when the window is closed.
    pub end: Option<i32>,
}

/// The windows a full sync walks through, oldest first: 1960–1984,
/// 1984–1999, 1999–2012 and 2012 to the present.
pub open spec fn era_windows_spec() -> Seq<EraWindow> {
    seq![
        EraWindow { start: 1960, end: Some(1984) },
        EraWindow { start: 1984, end: Some(1999) },
        EraWindow { start: 1999, end: Some(2012) },
        EraWindow { start: 2012, end: None },
    ]
}

/// The windows a full sync walks through, oldest first.
pub fn era_windows() -> (r: Vec<EraWindow>)
    ensures
        r@ == era_windows_spec(),
{
    let mut v: Vec<EraWindow> = Vec::new();
    v.push(EraWindow { start: 1960, end: Some(1984) });
    v.push(EraWindow { start: 1984, end: Some(1999) });
    v.push(EraWindow { start: 1999, end: Some(2012) });
    v.push(EraWindow { start: 2012, end: None });
    assert(v@ == era_windows_spec());
    v
}

/// Consecutive windows meet: each starts in the year the one before it
/// ends, and only the last is open.
pub proof fn lemma_era_windows_meet()
    ensures
        forall|i: int|
            0 <= i < era_windows_spec().len() - 1 ==> #[trigger] era_windows_spec()[i].end == Some(
                era_windows_spec()[i + 1].start,
            ),
        era_windows_spec().last().end is None,
{
}

} // verus!
