//! Star-history charting: fetch planning and chart geometry for the
//! cumulative-stars-over-time view of a set of repositories.
//!
//! The library holds the decisions of the tool: how many stargazer pages to
//! fetch and which ones, how a pagination link header is read, how a
//! timestamp becomes a chart x-coordinate, and how axis bounds and labels
//! are derived. The surrounding binary does the HTTP calls and the terminal
//! drawing and hands plain values in and out.

mod api;
mod chart;
mod date;
mod error;
mod labels;
mod pagination;
mod sampling;
mod timestamp;

pub use chart::{
    break_index, color_for_index, get_datasets_data, get_x_bounds, get_x_label, get_y_bounds,
    get_y_label, series_colors, ChartPoint, PageResult, RepoSnapshot, SeriesColor, StarEvent,
};
pub use api::{auth_header_value, repo_url, stargazers_url};
pub use date::{Date, FracYear};
pub use date::{is_leap_year, month_day, month_len, time_to_year};
pub use error::FetchError;
pub use labels::{get_label_strings, i32_to_string};
pub use pagination::{extract_last_page, total_pages};
pub use sampling::{pages_to_fetch, PAGE_CAP};
pub use timestamp::date_from_unix_seconds;
