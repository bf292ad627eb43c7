//! The chart's data model and geometry.
//!
//! One line series per repository. Each fetched page contributes one
//! point: the chart scans the page's star events for the end of the
//! first same-day cluster, and uses that event's timestamp as the
//! x-coordinate and its overall position in the list as the star count.
//! A final point carries the repository's current total. Axis bounds and
//! labels are derived from the creation years and the current counts.

use vstd::prelude::*;
use crate::date::{spec_time_to_year, time_to_year, Date, FracYear};
use crate::error::FetchError;
use crate::labels::{get_label_strings, spec_int_str, spec_label_count, spec_label_value};

verus! {

/// One timestamped starred event, as far as the chart reads it.
#[derive(Clone, Copy, Debug, PartialEq, Eq, Structural)]
pub struct StarEvent {
    pub starred_at: Date,
}

/// One fetched page of a repository's stargazer list.
#[derive(Debug)]
pub struct PageResult {
    /// 1-based page number.
    pub page: u32,
    /// The page's events, in API response order (chronological ascending).
    pub events: Vec<StarEvent>,
}

/// Everything fetched for one repository.
#[derive(Debug)]
pub struct RepoSnapshot {
    /// The repository identifier, in `owner/name` form.
    pub repo: String,
    /// The fetched pages, in ascending page order.
    pub pages: Vec<PageResult>,
    pub created_at: Date,
    /// The current total star count.
    pub current_num: i32,
}

/// One point of a series: a fractional-year x-coordinate and a
/// cumulative star count.
#[derive(Clone, Copy, Debug, PartialEq, Eq, Structural)]
pub struct ChartPoint {
    pub x: FracYear,
    pub stars: u64,
}

impl PageResult {
    /// A page is drawable when it is 1-based, holds at least one event,
    /// every event carries a real calendar date, and its chart position
    /// fits the machine's arithmetic.
    pub open spec fn wf(self) -> bool {
        &&& self.page >= 1
        &&& self.events@.len() >= 1
        &&& (self.page - 1) * 100 + self.events@.len() <= u64::MAX
        &&& forall|k: int|
            0 <= k < self.events@.len() ==> (#[trigger] self.events@[k]).starred_at.valid()
    }

    /// Whether the page can be drawn: `wf`, decided at run time.
    pub fn check_wf(&self) -> (b: bool)
        ensures
            b == self.wf(),
    {
        if self.page < 1 || self.events.len() == 0 {
            return false;
        }
        if !(self.events.len() as u64 <= u64::MAX - (self.page - 1) as u64 * 100) {
            return false;
        }
        let mut i: usize = 0;
        while i < self.events.len()
            invariant
                i <= self.events@.len(),
                forall|k: int|
                    0 <= k < i ==> (#[trigger] self.events@[k]).starred_at.valid(),
            decreases self.events@.len() - i,
        {
            if !self.events[i].starred_at.check_valid() {
                return false;
            }
            i = i + 1;
        }
        true
    }
}

impl RepoSnapshot {
    /// A snapshot is drawable when its dates are real and its star count
    /// and pages are as the API hands them out.
    pub open spec fn wf(self) -> bool {
        &&& self.created_at.valid()
        &&& self.current_num >= 0
        &&& forall|k: int| 0 <= k < self.pages@.len() ==> (#[trigger] self.pages@[k]).wf()
    }

    /// Whether the snapshot can be drawn: `wf`, decided at run time.
    pub fn check_wf(&self) -> (b: bool)
        ensures
            b == self.wf(),
    {
        if !self.created_at.check_valid() || self.current_num < 0 {
            return false;
        }
        let mut i: usize = 0;
        while i < self.pages.len()
            invariant
                i <= self.pages@.len(),
                forall|k: int| 0 <= k < i ==> (#[trigger] self.pages@[k]).wf(),
            decreases self.pages@.len() - i,
        {
            if !self.pages[i].check_wf() {
                return false;
            }
            i = i + 1;
        }
        true
    }
}

/// Scan for the end of the first same-day cluster, from index `i` on:
/// one before the first index whose day of month differs from its
/// predecessor's, or the last index when no day ever changes.
pub open spec fn spec_break_scan(es: Seq<StarEvent>, i: int) -> int
    recommends
        1 <= i,
    decreases es.len() - i,
{
    if i >= es.len() {
        es.len() - 1
    } else if es[i].starred_at.day != es[i - 1].starred_at.day {
        i - 1
    } else {
        spec_break_scan(es, i + 1)
    }
}

/// The index of the event that represents a page on the chart.
pub open spec fn spec_break_index(es: Seq<StarEvent>) -> int {
    spec_break_scan(es, 1)
}

/// The index of the event that represents the page: the end of the first
/// same-day cluster, or the last event when the whole page shares one
/// day of month.
pub fn break_index(events: &Vec<StarEvent>) -> (r: usize)
    requires
        events@.len() >= 1,
    ensures
        r == spec_break_index(events@),
        r < events@.len(),
{
    let mut i: usize = 1;
    while i < events.len()
        invariant
            1 <= i <= events@.len(),
            spec_break_index(events@) == spec_break_scan(events@, i as int),
        decreases events@.len() - i,
    {
        if events[i].starred_at.day != events[i - 1].starred_at.day {
            return i - 1;
        }
        i = i + 1;
    }
    events.len() - 1
}

/// The point a fetched page contributes: the fractional year of the
/// event closing the first same-day cluster, against that event's
/// overall position in the stargazer list, at 100 events per page.
pub open spec fn spec_page_point(p: PageResult) -> ChartPoint
    recommends
        p.wf(),
{
    ChartPoint {
        x: spec_time_to_year(p.events@[spec_break_index(p.events@)].starred_at),
        stars: ((p.page - 1) * 100 + spec_break_index(p.events@)) as u64,
    }
}

/// The full series of one repository: one point per fetched page, then
/// the current total at the current date.
pub open spec fn spec_series_points(s: RepoSnapshot, now: Date) -> Seq<ChartPoint> {
    s.pages@.map_values(|p: PageResult| spec_page_point(p)).push(
        ChartPoint { x: spec_time_to_year(now), stars: s.current_num as u64 },
    )
}

/// The plotted series of every snapshot, in input order.
pub fn get_datasets_data(datas: &Vec<RepoSnapshot>, now: Date) -> (r: Vec<Vec<ChartPoint>>)
    requires
        now.valid(),
        forall|i: int| 0 <= i < datas@.len() ==> (#[trigger] datas@[i]).wf(),
    ensures
        r@.len() == datas@.len(),
        forall|i: int| 0 <= i < r@.len() ==> #[trigger] r@[i]@ == spec_series_points(datas@[i], now),
{
    let mut r: Vec<Vec<ChartPoint>> = Vec::new();
    let mut i: usize = 0;
    while i < datas.len()
        invariant
            i <= datas@.len(),
            r@.len() == i,
            now.valid(),
            forall|k: int| 0 <= k < datas@.len() ==> (#[trigger] datas@[k]).wf(),
            forall|k: int|
                0 <= k < r@.len() ==> #[trigger] r@[k]@ == spec_series_points(datas@[k], now),
        decreases datas@.len() - i,
    {
        let snap = &datas[i];
        let mut d: Vec<ChartPoint> = Vec::new();
        let mut j: usize = 0;
        while j < snap.pages.len()
            invariant
                j <= snap.pages@.len(),
                d@.len() == j,
                snap.wf(),
                forall|jj: int|
                    0 <= jj < d@.len() ==> #[trigger] d@[jj] == spec_page_point(snap.pages@[jj]),
            decreases snap.pages@.len() - j,
        {
            let p = &snap.pages[j];
            let idx = break_index(&p.events);
            let x = time_to_year(p.events[idx].starred_at);
            let stars: u64 = (p.page - 1) as u64 * 100 + idx as u64;
            d.push(ChartPoint { x, stars });
            j = j + 1;
        }
        let x_now = time_to_year(now);
        d.push(ChartPoint { x: x_now, stars: snap.current_num as u64 });
        proof {
            assert(d@ =~= spec_series_points(datas@[i as int], now));
        }
        r.push(d);
        i = i + 1;
    }
    r
}

/// The smallest creation year among the snapshots.
pub open spec fn spec_min_year(datas: Seq<RepoSnapshot>) -> int
    recommends
        datas.len() > 0,
    decreases datas.len(),
{
    if datas.len() <= 1 {
        datas[0].created_at.year as int
    } else {
        let rest = spec_min_year(datas.drop_last());
        if datas.last().created_at.year < rest {
            datas.last().created_at.year as int
        } else {
            rest
        }
    }
}

/// The largest current star count among the snapshots.
pub open spec fn spec_max_star(datas: Seq<RepoSnapshot>) -> int
    recommends
        datas.len() > 0,
    decreases datas.len(),
{
    if datas.len() <= 1 {
        datas[0].current_num as int
    } else {
        let rest = spec_max_star(datas.drop_last());
        if datas.last().current_num > rest {
            datas.last().current_num as int
        } else {
            rest
        }
    }
}

fn min_created_year(datas: &Vec<RepoSnapshot>, now_year: i32) -> (r: i32)
    ensures
        r == if datas@.len() == 0 {
            now_year as int
        } else {
            spec_min_year(datas@)
        },
{
    let mut r = now_year;
    let mut i: usize = 0;
    while i < datas.len()
        invariant
            i <= datas@.len(),
            r == if i == 0 {
                now_year as int
            } else {
                spec_min_year(datas@.subrange(0, i as int))
            },
        decreases datas@.len() - i,
    {
        let y = datas[i].created_at.year;
        if i == 0 || y < r {
            r = y;
        }
        proof {
            assert(datas@.subrange(0, i + 1).drop_last() =~= datas@.subrange(0, i as int));
            assert(datas@.subrange(0, i + 1).last() == datas@[i as int]);
        }
        i = i + 1;
    }
    proof {
        if datas@.len() > 0 {
            assert(datas@.subrange(0, datas@.len() as int) =~= datas@);
        }
    }
    r
}

fn max_current_num(datas: &Vec<RepoSnapshot>) -> (r: i32)
    ensures
        r == if datas@.len() == 0 {
            0int
        } else {
            spec_max_star(datas@)
        },
{
    let mut r: i32 = 0;
    let mut i: usize = 0;
    while i < datas.len()
        invariant
            i <= datas@.len(),
            r == if i == 0 {
                0int
            } else {
                spec_max_star(datas@.subrange(0, i as int))
            },
        decreases datas@.len() - i,
    {
        let c = datas[i].current_num;
        if i == 0 || c > r {
            r = c;
        }
        proof {
            assert(datas@.subrange(0, i + 1).drop_last() =~= datas@.subrange(0, i as int));
            assert(datas@.subrange(0, i + 1).last() == datas@[i as int]);
        }
        i = i + 1;
    }
    proof {
        if datas@.len() > 0 {
            assert(datas@.subrange(0, datas@.len() as int) =~= datas@);
        }
    }
    r
}

/// The x-axis labels: from the earliest creation year (the current year
/// when there are no snapshots) up to the current year.
pub fn get_x_label(datas: &Vec<RepoSnapshot>, now_year: i32) -> (r: Vec<String>)
    requires
        now_year as int + 5 <= i32::MAX as int,
    ensures
        ({
            let lo = if datas@.len() == 0 {
                now_year as int
            } else {
                spec_min_year(datas@)
            };
            &&& r@.len() == spec_label_count(lo, now_year as int)
            &&& forall|k: int|
                0 <= k < r@.len() ==> #[trigger] r@[k]@ == spec_int_str(
                    spec_label_value(lo, now_year as int, k),
                )
        }),
{
    let lo = min_created_year(datas, now_year);
    get_label_strings(lo, now_year)
}

/// The y-axis labels: from zero up to the largest current star count.
pub fn get_y_label(datas: &Vec<RepoSnapshot>) -> (r: Vec<String>)
    requires
        forall|i: int|
            0 <= i < datas@.len() ==> (#[trigger] datas@[i]).current_num as int + 5
                <= i32::MAX as int,
    ensures
        ({
            let hi = if datas@.len() == 0 {
                0int
            } else {
                spec_max_star(datas@)
            };
            &&& r@.len() == spec_label_count(0, hi)
            &&& forall|k: int|
                0 <= k < r@.len() ==> #[trigger] r@[k]@ == spec_int_str(
                    spec_label_value(0, hi, k),
                )
        }),
{
    let hi = max_current_num(datas);
    proof {
        if datas@.len() > 0 {
            lemma_max_star_is_one_of(datas@);
        }
    }
    get_label_strings(0, hi)
}

/// The largest current count is the count of one of the snapshots.
proof fn lemma_max_star_is_one_of(datas: Seq<RepoSnapshot>)
    requires
        datas.len() > 0,
    ensures
        exists|i: int| 0 <= i < datas.len() && spec_max_star(datas) == (#[trigger] datas[i]).current_num,
    decreases datas.len(),
{
    if datas.len() == 1 {
        assert(spec_max_star(datas) == datas[0].current_num);
    } else {
        lemma_max_star_is_one_of(datas.drop_last());
        if datas.last().current_num > spec_max_star(datas.drop_last()) {
            assert(spec_max_star(datas) == datas[datas.len() - 1].current_num);
        } else {
            let i = choose|i: int|
                0 <= i < datas.drop_last().len() && spec_max_star(datas.drop_last()) == (
                #[trigger] datas.drop_last()[i]).current_num;
            assert(datas[i] == datas.drop_last()[i]);
            assert(spec_max_star(datas) == datas[i].current_num);
        }
    }
}

/// The x-axis range: the earliest creation year up to the year after the
/// current one.
pub fn get_x_bounds(datas: &Vec<RepoSnapshot>, now_year: i32) -> (r: [i32; 2])
    requires
        datas@.len() > 0,
        now_year < i32::MAX,
    ensures
        r@[0] == spec_min_year(datas@),
        r@[1] == now_year + 1,
{
    let lo = min_created_year(datas, now_year);
    [lo, now_year + 1]
}

/// The y-axis range: zero up to the largest current star count.
pub fn get_y_bounds(datas: &Vec<RepoSnapshot>) -> (r: [i32; 2])
    ensures
        r@[0] == 0,
        r@[1] == if datas@.len() == 0 {
            0int
        } else {
            spec_max_star(datas@)
        },
{
    let hi = max_current_num(datas);
    [0, hi]
}

/// A chart series color. The chart owns five of them, assigned to the
/// repositories in input order.
#[derive(Clone, Copy, Debug, PartialEq, Eq, Structural)]
pub enum SeriesColor {
    Red,
    Green,
    Yellow,
    Blue,
    Magenta,
}

/// The color of the series at `index`.
pub open spec fn spec_color_for(index: int) -> SeriesColor {
    if index == 0 {
        SeriesColor::Red
    } else if index == 1 {
        SeriesColor::Green
    } else if index == 2 {
        SeriesColor::Yellow
    } else if index == 3 {
        SeriesColor::Blue
    } else {
        SeriesColor::Magenta
    }
}

pub fn color_for_index(index: usize) -> (c: SeriesColor)
    requires
        index < 5,
    ensures
        c == spec_color_for(index as int),
{
    match index {
        0 => SeriesColor::Red,
        1 => SeriesColor::Green,
        2 => SeriesColor::Yellow,
        3 => SeriesColor::Blue,
        _ => SeriesColor::Magenta,
    }
}

/// The color of each of `n` chart series, one per repository in input
/// order. The chart owns five colors, so an input of more than five
/// repositories is rejected — exactly then, with the too-many-repos
/// error.
pub fn series_colors(n: usize) -> (r: Result<Vec<SeriesColor>, FetchError>)
    ensures
        n <= 5 <==> r is Ok,
        match r {
            Ok(cs) => cs@.len() == n && forall|k: int|
                0 <= k < n ==> #[trigger] cs@[k] == spec_color_for(k),
            Err(e) => e == FetchError::TooManyRepos,
        },
{
    if n > 5 {
        return Err(FetchError::TooManyRepos);
    }
    let mut cs: Vec<SeriesColor> = Vec::new();
    let mut i: usize = 0;
    while i < n
        invariant
            i <= n <= 5,
            cs@.len() == i,
            forall|k: int| 0 <= k < i ==> #[trigger] cs@[k] == spec_color_for(k),
        decreases n - i,
    {
        cs.push(color_for_index(i));
        i = i + 1;
    }
    Ok(cs)
}

} // verus!
