use lazygitrs::scroll::{calc_real_scrollbar_start_end, calc_scrollbar};

#[test]
fn test_calc_scrollbar_lazygit_compatibility() {
    let tests = vec![
        ("page size greater than list size", 5, 10, 0, 20, 0, 20),
        ("page size matches list size", 10, 10, 0, 20, 0, 20),
        ("page size half of list size", 10, 5, 0, 20, 0, 10),
        ("page size half of list size at scroll end", 10, 5, 5, 20, 10, 10),
        ("page size third of list size having scrolled half the way", 15, 5, 5, 21, 7, 7),
        ("page size third of list size having scrolled the full way", 15, 5, 10, 21, 14, 7),
        ("page size third of list size having scrolled by one", 15, 5, 1, 21, 2, 7),
        (
            "page size third of list size having scrolled up from the bottom by one",
            15,
            5,
            9,
            21,
            12,
            7,
        ),
    ];

    for (name, list_size, page_size, position, scroll_area_size, expected_start, expected_height) in tests {
        let (start, height) = calc_scrollbar(list_size, page_size, position, scroll_area_size);
        assert_eq!(
            start, expected_start,
            "Test '{}' failed: expected start {}, got {}",
            name, expected_start, start
        );
        assert_eq!(
            height, expected_height,
            "Test '{}' failed: expected height {}, got {}",
            name, expected_height, height
        );
    }
}

#[test]
fn test_calc_real_scrollbar_start_end_short_content_no_scroll() {
    assert_eq!(
        calc_real_scrollbar_start_end(10, 20, 0, true, 1),
        None,
        "Short content with 0 scroll offset should not display scrollbar"
    );
    assert_eq!(
        calc_real_scrollbar_start_end(10, 20, 0, false, 1),
        None,
        "Short content without scroll past bottom should not display scrollbar"
    );
}

#[test]
fn test_calc_real_scrollbar_start_end_scroll_past_bottom() {
    let res = calc_real_scrollbar_start_end(100, 20, 0, true, 1);
    assert!(res.is_some());
    let (start, end) = res.unwrap();
    assert_eq!(start, 1);
    assert_eq!(end, 4);

    let res_end = calc_real_scrollbar_start_end(100, 20, 100, true, 1);
    assert!(res_end.is_some());
    let (start_end, end_end) = res_end.unwrap();
    assert_eq!(start_end, 17);
    assert_eq!(end_end, 20);
}
