use octabot::pages::{
    calculate_total_pages, page_offset, DEFAULT_PAGE, DEFAULT_PAGE_SIZE, DEFAULT_TASKS_PER_PAGE,
};

#[test]
fn test_calculate_total_pages() {
    assert_eq!(calculate_total_pages(10, 3), 4);
    assert_eq!(calculate_total_pages(10, 5), 2);
    assert_eq!(calculate_total_pages(0, 5), 0);
}

#[test]
fn total_pages_rounds_up() {
    assert_eq!(calculate_total_pages(1, 1), 1);
    assert_eq!(calculate_total_pages(1, 5), 1);
    assert_eq!(calculate_total_pages(11, 5), 3);
    assert_eq!(calculate_total_pages(i64::MAX, 1), i64::MAX);
    assert_eq!(calculate_total_pages(i64::MAX, 2), 4611686018427387904);
}

#[test]
fn total_pages_with_negative_numbers() {
    assert_eq!(calculate_total_pages(-10, 3), -3);
    assert_eq!(calculate_total_pages(10, -3), -3);
    assert_eq!(calculate_total_pages(-10, -3), 4);
    assert_eq!(calculate_total_pages(i64::MIN, 1), i64::MIN);
    assert_eq!(calculate_total_pages(i64::MIN, -1), i64::MAX);
}

#[test]
fn total_pages_with_page_size_zero() {
    assert_eq!(calculate_total_pages(5, 0), i64::MAX);
    assert_eq!(calculate_total_pages(-5, 0), i64::MIN);
    assert_eq!(calculate_total_pages(0, 0), 0);
}

#[test]
fn page_offsets() {
    assert_eq!(DEFAULT_PAGE, 1);
    assert_eq!(DEFAULT_TASKS_PER_PAGE, 5);
    assert_eq!(DEFAULT_PAGE_SIZE, 10);
    assert_eq!(page_offset(1, 10), Some(0));
    assert_eq!(page_offset(3, 10), Some(20));
    assert_eq!(page_offset(0, 10), Some(-10));
    assert_eq!(page_offset(i64::MAX, 2), None);
    assert_eq!(page_offset(i64::MIN, 1), None);
    assert_eq!(page_offset(i64::MIN + 1, 1), Some(i64::MIN));
    assert_eq!(page_offset(i64::MAX, 1), Some(i64::MAX - 1));
}
