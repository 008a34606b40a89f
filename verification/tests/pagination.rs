use myapp::entity::Pagination;

#[test]
fn check_one_page() {
    let pagination = Pagination {
        page: 0,
        page_size: 20,
    };
    let pages = pagination.get_navigation_pages(1, 7);
    assert_eq!(pages, vec![0]);
}

#[test]
fn check_two_pages() {
    let pagination = Pagination {
        page: 1,
        page_size: 20,
    };
    let pages = pagination.get_navigation_pages(2, 7);
    assert_eq!(pages, vec![0, 1]);
}

#[test]
fn check_insufficient_pages() {
    let pagination = Pagination {
        page: 2,
        page_size: 20,
    };
    let pages = pagination.get_navigation_pages(3, 7);
    assert_eq!(pages, vec![0, 1, 2]);
}

#[test]
fn check_many_pages() {
    let pagination = Pagination {
        page: 10,
        page_size: 20,
    };
    let pages = pagination.get_navigation_pages(20, 7);
    assert_eq!(pages, vec![7, 8, 9, 10, 11, 12, 13]);
}

#[test]
fn check_many_pages_right_skewed() {
    let pagination = Pagination {
        page: 2,
        page_size: 20,
    };
    let pages = pagination.get_navigation_pages(20, 7);
    assert_eq!(pages, vec![0, 1, 2, 3, 4, 5, 6]);
}

#[test]
fn check_many_pages_left_skewed() {
    let pagination = Pagination {
        page: 19,
        page_size: 20,
    };
    let pages = pagination.get_navigation_pages(20, 7);
    assert_eq!(pages, vec![13, 14, 15, 16, 17, 18, 19]);
}

#[test]
fn check_changed_num_pages_to_show() {
    let mut pagination = Pagination {
        page: 10,
        page_size: 20,
    };

    pagination.page = 10;
    let pages = pagination.get_navigation_pages(20, 9);
    assert_eq!(pages, vec![6, 7, 8, 9, 10, 11, 12, 13, 14]);

    pagination.page = 2;
    let pages = pagination.get_navigation_pages(20, 9);
    assert_eq!(pages, vec![0, 1, 2, 3, 4, 5, 6, 7, 8]);

    pagination.page = 18;
    let pages = pagination.get_navigation_pages(20, 9);
    assert_eq!(pages, vec![11, 12, 13, 14, 15, 16, 17, 18, 19]);
}

#[test]
fn check_offset_limit_and_total_pages() {
    let pagination = Pagination {
        page: 3,
        page_size: 16,
    };
    assert_eq!(pagination.offset(), 48);
    assert_eq!(pagination.limit(), 16);
    assert_eq!(pagination.get_total_pages(0), 0);
    assert_eq!(pagination.get_total_pages(16), 1);
    assert_eq!(pagination.get_total_pages(17), 2);
    assert_eq!(pagination.get_total_pages(32), 2);
}

#[test]
fn check_default_pagination() {
    let pagination = Pagination::default();
    assert_eq!(pagination.page, 0);
    assert_eq!(pagination.page_size, 16);
}

#[test]
fn check_navigation_hides_disconnected_edges() {
    let pagination = Pagination {
        page: 10,
        page_size: 20,
    };
    let nav = pagination.get_navigation(20, 5);
    // window is [8..12]; first and last are disconnected and hidden,
    // and pages 0 and 19 are added around them
    let pages: Vec<usize> = nav.items.iter().map(|i| i.page).collect();
    assert_eq!(pages, vec![0, 8, 9, 10, 11, 12, 19]);
    assert!(nav.items[1].hide);
    assert!(nav.items[5].hide);
    assert!(!nav.items[0].hide);
    assert!(!nav.items[6].hide);
    assert!(nav.items[3].is_current);
}

#[test]
fn check_navigation_small() {
    let pagination = Pagination {
        page: 0,
        page_size: 20,
    };
    let nav = pagination.get_navigation(1, 5);
    let pages: Vec<usize> = nav.items.iter().map(|i| i.page).collect();
    assert_eq!(pages, vec![0]);
    assert!(nav.items[0].is_current);
    assert!(!nav.items[0].hide);
}

#[test]
fn check_even_window_overshoots_by_design() {
    // with an even width the two-sided widening can overshoot by one
    let pagination = Pagination {
        page: 10,
        page_size: 20,
    };
    let pages = pagination.get_navigation_pages(20, 8);
    assert_eq!(pages, vec![6, 7, 8, 9, 10, 11, 12, 13, 14]);
}
