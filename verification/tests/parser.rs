use rasterbatch::page_range::parse_page_range;

#[test]
fn blank_expression_selects_every_page() {
    assert_eq!(parse_page_range("", 10), (0..10).collect::<Vec<usize>>());
    assert_eq!(parse_page_range("   ", 4), vec![0, 1, 2, 3]);
    assert_eq!(parse_page_range("\t\n", 1), vec![0]);
    assert_eq!(parse_page_range("", 0), Vec::<usize>::new());
}

#[test]
fn simple_range_is_one_based_inclusive() {
    assert_eq!(parse_page_range("2-4", 10), vec![1, 2, 3]);
}

#[test]
fn comma_list_of_single_pages() {
    assert_eq!(parse_page_range("1,3,5", 10), vec![0, 2, 4]);
}

#[test]
fn range_start_clamped_at_first_page() {
    assert_eq!(parse_page_range("0-2", 10), vec![0, 1]);
}

#[test]
fn range_end_clamped_at_page_count() {
    assert_eq!(parse_page_range("9-100", 10), vec![8, 9]);
}

#[test]
fn non_numeric_expression_selects_nothing() {
    assert_eq!(parse_page_range("abc", 5), Vec::<usize>::new());
}

#[test]
fn overlapping_ranges_deduplicate_and_sort() {
    assert_eq!(parse_page_range("1-3,2-5", 10), vec![0, 1, 2, 3, 4]);
}

#[test]
fn malformed_tokens_are_dropped_silently() {
    assert_eq!(parse_page_range("1-2-3", 10), Vec::<usize>::new());
    assert_eq!(parse_page_range("-5", 10), Vec::<usize>::new());
    assert_eq!(parse_page_range("3-", 10), Vec::<usize>::new());
    assert_eq!(parse_page_range("2,x,4", 10), vec![1, 3]);
}

#[test]
fn whitespace_around_tokens_and_bounds_is_trimmed() {
    assert_eq!(parse_page_range(" 2 - 4 , 7 ", 10), vec![1, 2, 3, 6]);
}

#[test]
fn out_of_bounds_single_pages_are_dropped() {
    assert_eq!(parse_page_range("0,11", 10), Vec::<usize>::new());
    assert_eq!(parse_page_range("10", 10), vec![9]);
}

#[test]
fn a_leading_plus_sign_is_accepted_once() {
    assert_eq!(parse_page_range("+5", 10), vec![4]);
    assert_eq!(parse_page_range("+2-+4", 10), vec![1, 2, 3]);
    assert_eq!(parse_page_range("++5", 10), Vec::<usize>::new());
    assert_eq!(parse_page_range("+", 10), Vec::<usize>::new());
}

#[test]
fn unicode_whitespace_is_trimmed() {
    assert_eq!(parse_page_range("\u{a0}", 3), vec![0, 1, 2]);
    assert_eq!(parse_page_range("\u{2003}2\u{2003}-\u{2003}3\u{2003},\u{3000}5", 10), vec![1, 2, 4]);
}

#[test]
fn oversized_numbers_drop_their_token() {
    assert_eq!(
        parse_page_range("1-99999999999999999999999999", 10),
        Vec::<usize>::new()
    );
    assert_eq!(parse_page_range("1-999999", 10), (0..10).collect::<Vec<usize>>());
}
