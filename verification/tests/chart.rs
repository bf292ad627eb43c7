use star_history::{
    break_index, color_for_index, get_datasets_data, get_x_bounds, get_x_label, get_y_bounds,
    get_y_label, series_colors, Date, FetchError, PageResult, RepoSnapshot, SeriesColor,
    StarEvent,
};

fn ev(year: i32, month: u32, day: u32) -> StarEvent {
    StarEvent { starred_at: Date { year, month, day } }
}

fn snapshot(repo: &str, created_year: i32, current_num: i32, pages: Vec<PageResult>) -> RepoSnapshot {
    RepoSnapshot {
        repo: repo.to_string(),
        pages,
        created_at: Date { year: created_year, month: 6, day: 15 },
        current_num,
    }
}

#[test]
fn break_index_finds_the_first_day_change() {
    let events = vec![ev(2020, 1, 5), ev(2020, 1, 5), ev(2020, 1, 6), ev(2020, 1, 7)];
    assert_eq!(break_index(&events), 1);
}

#[test]
fn break_index_takes_the_last_event_without_a_change() {
    let events = vec![ev(2020, 1, 5), ev(2020, 2, 5), ev(2021, 3, 5)];
    assert_eq!(break_index(&events), 2);
}

#[test]
fn series_points_follow_pages_and_end_at_the_total() {
    let pages = vec![
        PageResult { page: 1, events: vec![ev(2020, 1, 5), ev(2020, 1, 6)] },
        PageResult { page: 4, events: vec![ev(2021, 7, 1), ev(2021, 7, 1), ev(2021, 7, 2)] },
    ];
    let data = vec![snapshot("a/b", 2019, 420, pages)];
    let now = Date { year: 2024, month: 3, day: 1 };
    let series = get_datasets_data(&data, now);
    assert_eq!(series.len(), 1);
    let points = &series[0];
    assert_eq!(points.len(), 3);

    // Page 1 breaks after its first event: position (1-1)*100 + 0.
    assert_eq!(points[0].stars, 0);
    assert_eq!((points[0].x.year, points[0].x.num, points[0].x.den), (2020, 5, 366));

    // Page 4 breaks after its second event: position (4-1)*100 + 1.
    assert_eq!(points[1].stars, 301);
    assert_eq!((points[1].x.year, points[1].x.num, points[1].x.den), (2021, 182, 365));

    // The final point carries the current total at the current date.
    assert_eq!(points[2].stars, 420);
    assert_eq!((points[2].x.year, points[2].x.num, points[2].x.den), (2024, 61, 366));
}

#[test]
fn axis_bounds() {
    let data = vec![
        snapshot("a/b", 2015, 10, vec![PageResult { page: 1, events: vec![ev(2015, 6, 20)] }]),
        snapshot("c/d", 2012, 55, vec![PageResult { page: 1, events: vec![ev(2012, 7, 2)] }]),
    ];
    assert_eq!(get_x_bounds(&data, 2024), [2012, 2025]);
    assert_eq!(get_y_bounds(&data), [0, 55]);
}

#[test]
fn axis_labels() {
    let data = vec![
        snapshot("a/b", 2021, 3, vec![PageResult { page: 1, events: vec![ev(2021, 6, 20)] }]),
    ];
    assert_eq!(get_x_label(&data, 2024), vec!["2021", "2022", "2023", "2024"]);
    assert_eq!(get_y_label(&data), vec!["0", "1", "2", "3"]);

    let data = vec![
        snapshot("a/b", 2021, 50, vec![PageResult { page: 1, events: vec![ev(2021, 6, 20)] }]),
    ];
    assert_eq!(get_y_label(&data), vec!["0", "11", "22", "33", "44", "55"]);
}

#[test]
fn drawability_check() {
    let good = snapshot("a/b", 2020, 1, vec![PageResult { page: 1, events: vec![ev(2020, 1, 1)] }]);
    assert!(good.check_wf());

    let empty_page = snapshot("a/b", 2020, 1, vec![PageResult { page: 1, events: vec![] }]);
    assert!(!empty_page.check_wf());

    let not_a_date = snapshot(
        "a/b",
        2020,
        1,
        vec![PageResult { page: 1, events: vec![ev(2023, 2, 29)] }],
    );
    assert!(!not_a_date.check_wf());
}

#[test]
fn five_series_get_five_colors() {
    assert_eq!(color_for_index(0), SeriesColor::Red);
    assert_eq!(color_for_index(4), SeriesColor::Magenta);
    let colors = series_colors(3).unwrap();
    assert_eq!(colors, vec![SeriesColor::Red, SeriesColor::Green, SeriesColor::Yellow]);
}

#[test]
fn more_than_five_repos_are_rejected() {
    assert_eq!(series_colors(6), Err(FetchError::TooManyRepos));
    assert_eq!(
        series_colors(6).unwrap_err().message(),
        "the number of repo greater than 5."
    );
}

#[test]
fn error_messages() {
    assert_eq!(FetchError::MissingRepos.message(), "please input the repo name");
    assert_eq!(FetchError::HttpFailure.message(), "failed");
    assert_eq!(
        FetchError::MalformedLinkHeader.message(),
        "malformed pagination link header"
    );
    assert_eq!(
        FetchError::TimestampOutOfRange.message(),
        "timestamp out of range"
    );
}
