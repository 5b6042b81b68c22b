use todo_list::{check_item, get_next_item_number, next_number_from, parse_number, uncheck_item, update_last_edit};

#[test]
fn check_first_matching_line() {
    let content = "1. [ ] a\n2. [ ] b\n2. [ ] c";
    assert_eq!(check_item(2, content), "1. [ ] a\n2. [x] b\n2. [ ] c");
    assert_eq!(check_item(3, content), content);
}

#[test]
fn uncheck_first_matching_line() {
    assert_eq!(uncheck_item(1, "1. [x] a\n1. [x] b"), "1. [ ] a\n1. [x] b");
    assert_eq!(uncheck_item(1, "1. [ ] a"), "1. [ ] a");
}

#[test]
fn last_edit_line_replaced() {
    let content = "Created On: X\nLast Edit : old\n\n1. [ ] a";
    assert_eq!(update_last_edit(content, "new"), "Created On: X\nLast Edit : new\n\n1. [ ] a");
}

#[test]
fn next_item_number_from_lines() {
    assert_eq!(get_next_item_number("1. [ ] a\n7. [x] b\n3. [ ] c"), 8);
    assert_eq!(get_next_item_number("no entries"), 1);
    assert_eq!(get_next_item_number(""), 1);
}

#[test]
fn next_number_from_texts() {
    let texts = vec!["5".to_string(), "12".to_string(), "x".to_string(), "99999999999".to_string()];
    assert_eq!(next_number_from(&texts), 13);
    assert_eq!(next_number_from(&vec![]), 1);
    assert_eq!(next_number_from(&vec!["2147483647".to_string()]), 2147483647);
}

#[test]
fn parse_number_cases() {
    assert_eq!(parse_number("42"), Some(42));
    assert_eq!(parse_number("007"), Some(7));
    assert_eq!(parse_number("4a"), None);
    assert_eq!(parse_number(""), None);
    assert_eq!(parse_number("-1"), None);
    assert_eq!(parse_number("2147483647"), Some(2147483647));
    assert_eq!(parse_number("2147483648"), None);
}
