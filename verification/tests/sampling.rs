use star_history::pages_to_fetch;

#[test]
fn short_lists_are_fetched_whole() {
    assert_eq!(pages_to_fetch(1), vec![1]);
    assert_eq!(pages_to_fetch(3), vec![1, 2, 3]);
    assert_eq!(
        pages_to_fetch(15),
        (1..=15).collect::<Vec<u32>>()
    );
}

#[test]
fn twenty_pages_are_sampled_down_to_fifteen() {
    let pages = pages_to_fetch(20);
    assert_eq!(pages.len(), 15);
    assert_eq!(pages[0], 1);
    for p in &pages {
        assert!((1..=20).contains(p));
    }
    for w in pages.windows(2) {
        assert!(w[0] < w[1]);
    }
    assert_eq!(
        pages,
        vec![1, 2, 3, 5, 6, 7, 9, 10, 11, 13, 14, 15, 17, 18, 20]
    );
}

#[test]
fn sampling_keeps_first_and_last_page() {
    for total in [16u32, 100, 1334, 100_000] {
        let pages = pages_to_fetch(total);
        assert_eq!(pages.len(), 15);
        assert_eq!(pages[0], 1);
        assert_eq!(pages[14], total);
        for w in pages.windows(2) {
            assert!(w[0] < w[1]);
        }
    }
}
