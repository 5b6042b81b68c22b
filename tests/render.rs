use todo_list::{ItemAction, ItemStatus, ItemType, List, PrintWhich, Timestamp};

fn at(secs: i64) -> Timestamp {
    Timestamp { secs, nanos: 0, offset: 0 }
}

const HEADER: &str = "Created On: 01/01/1970 00:00:00\nLast Edit : 01/01/1970 00:00:00";

fn sample() -> List {
    let mut list = List::new_at("groceries".to_string(), at(0));
    list.act_on_item_at_time(&mut vec![], ItemAction::Add(ItemType::Todo, "milk".to_string()), at(0));
    list.act_on_item_at_time(&mut vec![1], ItemAction::Add(ItemType::Todo, "2%".to_string()), at(0));
    list.act_on_item_at_time(&mut vec![], ItemAction::Add(ItemType::Note, "shop at noon".to_string()), at(0));
    list
}

#[test]
fn plain_render_exact() {
    let list = sample();
    let out = list.print(PrintWhich::All, true, None, false);
    let expected = format!("{}{}", HEADER, "\n1. [ ] milk\n       1. [ ] 2%\n2.     shop at noon");
    assert_eq!(out, expected);
}

#[test]
fn empty_list_message() {
    let list = List::new_at("e".to_string(), at(0));
    let out = list.print(PrintWhich::All, true, None, false);
    assert_eq!(out, format!("{}\n There are no items in this list", HEADER));
}

#[test]
fn header_uses_offset() {
    let list = List::new_at("e".to_string(), Timestamp { secs: 86_400 + 3_661, nanos: 0, offset: 3_600 });
    let out = list.print(PrintWhich::All, true, None, false);
    assert!(out.starts_with("Created On: 01/02/1970 02:01:01"));
}

#[test]
fn complete_filter_keeps_only_complete_subtrees() {
    let mut list = sample();
    list.act_on_item_at_time(&mut vec![1, 1], ItemAction::AlterStatus(ItemStatus::Complete), at(0));
    let out = list.print(PrintWhich::Complete, true, None, false);
    assert_eq!(out, format!("{}{}", HEADER, "\n1. [ ] milk\n       1. [x] 2%"));
    let inc = list.print(PrintWhich::Incomplete, true, None, false);
    assert_eq!(inc, format!("{}{}", HEADER, "\n1. [ ] milk"));
}

#[test]
fn hidden_parent_hides_children() {
    let mut list = List::new_at("h".to_string(), at(0));
    list.act_on_item_at_time(&mut vec![], ItemAction::Add(ItemType::Todo, "parent".to_string()), at(0));
    list.act_on_item_at_time(&mut vec![1], ItemAction::Add(ItemType::Todo, "a".to_string()), at(0));
    list.act_on_item_at_time(&mut vec![1], ItemAction::Add(ItemType::Todo, "b".to_string()), at(0));
    list.act_on_item_at_time(&mut vec![1], ItemAction::AlterHidden(true), at(0));
    list.act_on_item_at_time(&mut vec![2, 1], ItemAction::AlterHidden(true), at(0));
    let out = list.print(PrintWhich::All, true, None, false);
    assert_eq!(out, HEADER);
    let shown = list.print(PrintWhich::All, true, None, true);
    assert_eq!(shown, format!("{}{}", HEADER, "\n1. [ ] parent\n       1. [ ] a\n       2. [ ] b"));
}

#[test]
fn max_level_stops_descent() {
    let list = sample();
    let out = list.print(PrintWhich::All, true, Some(1), false);
    assert_eq!(out, format!("{}{}", HEADER, "\n1. [ ] milk\n2.     shop at noon"));
    let zero = list.print(PrintWhich::All, true, Some(0), false);
    assert_eq!(zero, list.print(PrintWhich::All, true, None, false));
}

#[test]
fn numbers_are_padded_to_widest_holder() {
    let mut list = List::new_at("w".to_string(), at(0));
    for _ in 0..10 {
        list.act_on_item_at_time(&mut vec![], ItemAction::Add(ItemType::Todo, "t".to_string()), at(0));
    }
    list.act_on_item_at_time(&mut vec![10], ItemAction::AlterStatus(ItemStatus::Disabled), at(0));
    let out = list.print(PrintWhich::All, true, None, false);
    assert!(out.contains("\n1.  [ ] t\n"));
    assert!(out.ends_with("\n10. [-] t"));
}

#[test]
fn styled_render_differs_from_plain() {
    let list = sample();
    let styled = list.print(PrintWhich::All, false, None, false);
    let plain = list.print(PrintWhich::All, true, None, false);
    assert_ne!(styled, plain);
    assert!(styled.contains("milk"));
    assert!(styled.contains('\u{1b}'));
}

#[test]
fn stylers_wrap_text() {
    assert_eq!(todo_list::primary("x"), "\u{1b}[38;5;12mx\u{1b}[39m");
    assert_eq!(todo_list::success("x"), "\u{1b}[38;5;10mx\u{1b}[39m");
    assert_eq!(todo_list::info("x"), "\u{1b}[38;5;14mx\u{1b}[39m");
    assert_eq!(todo_list::warning("x"), "\u{1b}[38;5;11mx\u{1b}[39m");
    assert_eq!(todo_list::danger("x"), "\u{1b}[38;5;9mx\u{1b}[39m");
    assert_eq!(todo_list::bold("x"), "\u{1b}[1mx\u{1b}[0m");
    assert_eq!(todo_list::italic("x"), "\u{1b}[3mx\u{1b}[0m");
}

#[test]
fn styled_todo_line_exact() {
    let mut list = List::new_at("s".to_string(), at(0));
    list.act_on_item_at_time(&mut vec![], ItemAction::Add(ItemType::Todo, "milk".to_string()), at(0));
    let out = list.print(PrintWhich::All, false, None, false);
    let header = "\u{1b}[38;5;12mCreated On: \u{1b}[39m\u{1b}[38;5;14m01/01/1970 00:00:00\u{1b}[39m\u{1b}[38;5;12m\nLast Edit : \u{1b}[39m\u{1b}[38;5;14m01/01/1970 00:00:00\u{1b}[39m";
    let line = "\u{1b}[38;5;9m\u{1b}[1m\n1. [ ] \u{1b}[0m\u{1b}[39mmilk";
    assert_eq!(out, format!("{}{}", header, line));
}
