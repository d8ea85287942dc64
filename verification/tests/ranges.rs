use ovid::ranges::parse_page_ranges;

#[test]
fn parse_pages_single() {
    assert_eq!(parse_page_ranges("1", 10).unwrap(), vec![0]);
    assert_eq!(parse_page_ranges("5", 10).unwrap(), vec![4]);
    assert_eq!(parse_page_ranges("10", 10).unwrap(), vec![9]);
}

#[test]
fn parse_pages_multiple() {
    assert_eq!(parse_page_ranges("1,3,5", 10).unwrap(), vec![0, 2, 4]);
}

#[test]
fn parse_pages_range() {
    assert_eq!(parse_page_ranges("2-5", 10).unwrap(), vec![1, 2, 3, 4]);
}

#[test]
fn parse_pages_mixed() {
    assert_eq!(parse_page_ranges("1,3-5,10", 10).unwrap(), vec![0, 2, 3, 4, 9]);
}

#[test]
fn parse_pages_single_page_range() {
    assert_eq!(parse_page_ranges("3-3", 5).unwrap(), vec![2]);
}

#[test]
fn parse_pages_whitespace() {
    assert_eq!(parse_page_ranges(" 1 , 3 - 5 , 10 ", 10).unwrap(), vec![0, 2, 3, 4, 9]);
}

#[test]
fn parse_pages_trailing_comma() {
    assert_eq!(parse_page_ranges("1,2,", 5).unwrap(), vec![0, 1]);
}

#[test]
fn parse_pages_dedup_adjacent() {
    assert_eq!(parse_page_ranges("3,3", 5).unwrap(), vec![2]);
}

#[test]
fn parse_pages_no_dedup_nonadjacent() {
    let result = parse_page_ranges("1,3,1", 5).unwrap();
    assert_eq!(result, vec![0, 2, 0]);
}

#[test]
fn parse_pages_all_pages() {
    assert_eq!(parse_page_ranges("1-3", 3).unwrap(), vec![0, 1, 2]);
}

#[test]
fn parse_pages_err_zero() {
    assert!(parse_page_ranges("0", 10).is_err());
}

#[test]
fn parse_pages_err_exceeds_count() {
    assert!(parse_page_ranges("11", 10).is_err());
}

#[test]
fn parse_pages_err_range_exceeds() {
    assert!(parse_page_ranges("5-11", 10).is_err());
}

#[test]
fn parse_pages_err_reversed_range() {
    assert!(parse_page_ranges("5-3", 10).is_err());
}

#[test]
fn parse_pages_err_empty() {
    assert!(parse_page_ranges("", 10).is_err());
}

#[test]
fn parse_pages_err_garbage() {
    assert!(parse_page_ranges("abc", 10).is_err());
}

#[test]
fn parse_pages_err_negative() {
    assert!(parse_page_ranges("-1", 10).is_err());
}

#[test]
fn parse_pages_err_kind_is_validation() {
    let e = parse_page_ranges("0", 10).unwrap_err();
    assert!(matches!(e.kind(), ovid::err::ErrorKind::ValidationError));
}

#[test]
fn parse_pages_overflowing_number_is_rejected() {
    assert!(parse_page_ranges("99999999999999999999", 10).is_err());
}
