use star_history::{get_label_strings, i32_to_string};

#[test]
fn short_ranges_label_every_integer() {
    assert_eq!(get_label_strings(0, 3), vec!["0", "1", "2", "3"]);
    assert_eq!(get_label_strings(2020, 2023), vec!["2020", "2021", "2022", "2023"]);
}

#[test]
fn long_ranges_get_six_evenly_spaced_labels() {
    assert_eq!(
        get_label_strings(0, 50),
        vec!["0", "11", "22", "33", "44", "55"]
    );
}

#[test]
fn a_step_with_a_remainder_still_gives_six_labels() {
    // Span 12, step 12 / 5 = 2: six labels, stopping short of max + 5.
    assert_eq!(
        get_label_strings(0, 7),
        vec!["0", "2", "4", "6", "8", "10"]
    );
}

#[test]
fn empty_ranges_get_no_label() {
    let labels = get_label_strings(5, 2);
    assert!(labels.is_empty());
}

#[test]
fn decimal_writings() {
    assert_eq!(i32_to_string(0), "0");
    assert_eq!(i32_to_string(7), "7");
    assert_eq!(i32_to_string(1334), "1334");
    assert_eq!(i32_to_string(-123), "-123");
    assert_eq!(i32_to_string(i32::MAX), "2147483647");
    assert_eq!(i32_to_string(i32::MIN), "-2147483648");
}
