use blog_engine::page::{clamped_bounds, window_bounds, Page, MAX_PAGES};

#[test]
fn twenty_five_items_make_three_pages_of_ten() {
    let first = Page::new(25, 1, 10);
    assert_eq!(first.count, 3);
    assert_eq!(first.current, 1);
    assert_eq!(first.prev, None);
    assert_eq!(first.next, Some(2));

    let last = Page::new(25, 3, 10);
    assert_eq!(last.count, 3);
    assert_eq!(last.current, 3);
    assert_eq!(last.prev, Some(2));
    assert_eq!(last.next, None);

    assert_eq!(window_bounds(25, 1, 10), (0, 10));
    assert_eq!(window_bounds(25, 2, 10), (10, 20));
    assert_eq!(window_bounds(25, 3, 10), (20, 25));
}

#[test]
fn page_count_rounds_up() {
    assert_eq!(Page::new(0, 1, 10).count, 0);
    assert_eq!(Page::new(1, 1, 10).count, 1);
    assert_eq!(Page::new(10, 1, 10).count, 1);
    assert_eq!(Page::new(11, 1, 10).count, 2);
    assert_eq!(Page::new(20, 1, 10).count, 2);
    assert_eq!(Page::new(21, 1, 10).count, 3);
    assert_eq!(Page::new(7, 1, 1).count, 7);
}

#[test]
fn page_count_is_capped() {
    assert_eq!(Page::new(u32::MAX, 1, 1).count, MAX_PAGES);
    assert_eq!(Page::new(65536, 1, 1).count, MAX_PAGES);
    assert_eq!(Page::new(65535, 1, 1).count, 65535);
    assert_eq!(Page::for_list(usize::MAX, 1, 1).count, MAX_PAGES);
}

#[test]
fn page_size_zero() {
    let none = Page::new(0, 1, 0);
    assert_eq!(none.count, 0);
    assert_eq!(none.current, 0);
    let some = Page::new(5, 1, 0);
    assert_eq!(some.count, MAX_PAGES);
    assert_eq!(some.current, 1);
    assert_eq!(Page::for_list(5, 1, 0).count, MAX_PAGES);
    assert_eq!(Page::for_list(0, 1, 0).count, 0);
}

#[test]
fn requested_page_is_clamped_to_the_last() {
    let page = Page::new(25, 9, 10);
    assert_eq!(page, Page { count: 3, current: 3, prev: Some(2), next: None });
    let page = Page::from_count(3, 200);
    assert_eq!(page, Page { count: 3, current: 3, prev: Some(2), next: None });
    let page = Page::for_list(25, 70000, 10);
    assert_eq!(page, Page { count: 3, current: 3, prev: Some(2), next: None });
}

#[test]
fn from_count_links_neighbours() {
    assert_eq!(Page::from_count(5, 1), Page { count: 5, current: 1, prev: None, next: Some(2) });
    assert_eq!(Page::from_count(5, 3), Page { count: 5, current: 3, prev: Some(2), next: Some(4) });
    assert_eq!(Page::from_count(5, 5), Page { count: 5, current: 5, prev: Some(4), next: None });
    assert_eq!(Page::from_count(0, 1), Page { count: 0, current: 0, prev: None, next: None });
    assert_eq!(Page::from_count(1, 0), Page { count: 1, current: 0, prev: None, next: Some(1) });
}

#[test]
fn for_list_agrees_with_new() {
    for total in [0usize, 1, 9, 10, 11, 25, 40, 41] {
        for requested in [1usize, 2, 3, 5] {
            assert_eq!(
                Page::for_list(total, requested, 20),
                Page::new(total as u32, requested as u16, 20)
            );
        }
    }
}

#[test]
fn window_beyond_the_list_is_empty() {
    assert_eq!(window_bounds(25, 4, 10), (25, 25));
    assert_eq!(window_bounds(25, usize::MAX, 10), (25, 25));
    assert_eq!(window_bounds(0, 1, 10), (0, 0));
    assert_eq!(window_bounds(25, 1, 0), (0, 0));
    assert_eq!(window_bounds(25, 2, usize::MAX), (25, 25));
    assert_eq!(window_bounds(25, 1, usize::MAX), (0, 25));
}

#[test]
fn a_request_beyond_the_last_page_shows_the_last_page() {
    assert_eq!(clamped_bounds(25, 1, 10), (0, 10));
    assert_eq!(clamped_bounds(25, 3, 10), (20, 25));
    assert_eq!(clamped_bounds(25, 9, 10), (20, 25));
    assert_eq!(clamped_bounds(25, usize::MAX, 10), (20, 25));
    assert_eq!(clamped_bounds(30, 4, 10), (20, 30));
    assert_eq!(clamped_bounds(0, 1, 10), (0, 0));
    assert_eq!(clamped_bounds(25, 0, 10), (0, 0));
    assert_eq!(clamped_bounds(25, 1, 0), (0, 0));
    assert_eq!(clamped_bounds(usize::MAX, usize::MAX, 1), (usize::MAX - 1, usize::MAX));
    assert_eq!(clamped_bounds(usize::MAX, 2, usize::MAX), (0, usize::MAX));
}

#[test]
fn the_last_page_is_reached_beyond_the_largest_page_count() {
    // 65536 items, one a page: the count a `Page` reports stops at 65535,
    // the pages do not.
    assert_eq!(Page::for_list(65536, 65536, 1).count, MAX_PAGES);
    assert_eq!(clamped_bounds(65536, 65535, 1), (65534, 65535));
    assert_eq!(clamped_bounds(65536, 65536, 1), (65535, 65536));
    assert_eq!(clamped_bounds(65536, 65537, 1), (65535, 65536));
    assert_eq!(clamped_bounds(1_400_000, 70_000, 20), (1_399_980, 1_400_000));
}

#[test]
fn title_prefix_only_beyond_the_first_page() {
    assert_eq!(Page::from_count(3, 1).title_prefix(), None);
    assert_eq!(Page::from_count(3, 2).title_prefix(), Some("第2页 - ".to_string()));
    assert_eq!(Page::from_count(30, 12).title_prefix(), Some("第12页 - ".to_string()));
    assert_eq!(Page::from_count(0, 1).title_prefix(), None);
}

#[test]
fn pages_tile_the_list() {
    for len in [0usize, 1, 9, 10, 11, 25, 30] {
        for size in [1usize, 3, 10, 40] {
            let count = Page::for_list(len, 1, size).count;
            let mut covered = 0;
            for page in 1..=count {
                let (from, to) = window_bounds(len, usize::from(page), size);
                assert_eq!(from, covered);
                assert!(to - from <= size);
                if page < count {
                    assert_eq!(to - from, size);
                } else {
                    assert!(to > from);
                }
                covered = to;
            }
            assert_eq!(covered, len);
            assert_eq!(window_bounds(len, usize::from(count) + 1, size), (len, len));
        }
    }
}
