use todo_list::{Item, ItemAction, ItemStatus, ItemType, List, PrintWhich, Timestamp};

fn at(secs: i64) -> Timestamp {
    Timestamp { secs, nanos: 0, offset: 0 }
}

fn groceries() -> List {
    let mut list = List::new_at("groceries".to_string(), at(0));
    list.act_on_item_at_time(&mut vec![], ItemAction::Add(ItemType::Todo, "milk".to_string()), at(1));
    list.act_on_item_at_time(&mut vec![1], ItemAction::Add(ItemType::Todo, "2%  ".to_string()), at(2));
    list
}

fn count_nodes(items: &Vec<Item>) -> usize {
    items.iter().map(|i| 1 + count_nodes(&i.sub_items)).sum()
}

fn same_content(a: &Item, b: &Item) -> bool {
    a.item_type == b.item_type
        && a.status == b.status
        && a.text == b.text
        && a.hidden == b.hidden
        && a.created == b.created
        && a.sub_items.len() == b.sub_items.len()
        && a.sub_items.iter().zip(b.sub_items.iter()).all(|(x, y)| same_content(x, y))
}

#[test]
fn check_nested_item_then_status_counts() {
    let mut list = groceries();
    let out = list.act_on_item_at_time(&mut vec![1, 1], ItemAction::AlterStatus(ItemStatus::Complete), at(3));
    assert!(out.is_none());
    assert_eq!(list.items[0].status, ItemStatus::Incomplete);
    assert_eq!(list.items[0].sub_items[0].status, ItemStatus::Complete);
    assert_eq!(list.status_counts(PrintWhich::All), (1, Some(1), Some(1)));
    let mut text = String::new();
    list.status(&mut text, PrintWhich::All);
    assert_eq!(text, "Items: 1\nComplete: 1\nIncomplete: 1");
}

#[test]
fn remove_then_put_restores_list() {
    let mut list = groceries();
    let original = groceries();
    let removed = list.act_on_item_at_time(&mut vec![1], ItemAction::Remove, at(5)).expect("entry removed");
    assert_eq!(list.items.len(), 0);
    assert_eq!(removed.last_updated, at(5));
    list.act_on_item_at_time(&mut vec![], ItemAction::Put(removed), at(6));
    assert_eq!(list.items.len(), original.items.len());
    assert!(same_content(&list.items[0], &original.items[0]));
    assert_eq!(list.items[0].sub_items[0].text, "2%  ");
}

#[test]
fn check_twice_same_as_once() {
    let mut once = groceries();
    once.act_on_item_at_time(&mut vec![1, 1], ItemAction::AlterStatus(ItemStatus::Complete), at(7));
    let mut twice = groceries();
    twice.act_on_item_at_time(&mut vec![1, 1], ItemAction::AlterStatus(ItemStatus::Complete), at(4));
    twice.act_on_item_at_time(&mut vec![1, 1], ItemAction::AlterStatus(ItemStatus::Complete), at(7));
    assert!(same_content(&once.items[0], &twice.items[0]));
    assert_eq!(once.items[0].last_updated, twice.items[0].last_updated);
    assert_eq!(once.items[0].sub_items[0].last_updated, twice.items[0].sub_items[0].last_updated);
    assert_eq!(once.last_updated, twice.last_updated);
}

#[test]
fn move_keeps_node_count_and_content() {
    let mut list = groceries();
    list.act_on_item_at_time(&mut vec![], ItemAction::Add(ItemType::Note, "bread".to_string()), at(3));
    list.act_on_item_at_time(&mut vec![1, 1], ItemAction::Add(ItemType::Todo, "organic".to_string()), at(4));
    let total = count_nodes(&list.items);
    let moved_copy_text = list.items[0].sub_items[0].text.clone();
    // move [1,1] (stack [1, 1]) under the note, now [2] (stack [2])
    let moved = list.move_item_at_time(&mut vec![1, 1], &mut vec![2], at(9));
    assert!(moved);
    assert_eq!(count_nodes(&list.items), total);
    assert_eq!(list.items[0].sub_items.len(), 0);
    let arrived = list.items[1].sub_items.last().expect("moved entry");
    assert_eq!(arrived.text, moved_copy_text);
    assert_eq!(arrived.sub_items.len(), 1);
    assert_eq!(arrived.sub_items[0].text, "organic");
    assert_eq!(arrived.created, at(2));
}

#[test]
fn move_from_missing_path_changes_nothing() {
    let mut list = groceries();
    let moved = list.move_item_at_time(&mut vec![4], &mut vec![], at(9));
    assert!(!moved);
    assert_eq!(list.items.len(), 1);
    assert_eq!(list.last_updated, at(2));
}

#[test]
fn add_at_empty_path_appends_one() {
    let mut list = groceries();
    list.act_on_item_at_time(&mut vec![], ItemAction::Add(ItemType::Note, "eggs".to_string()), at(8));
    assert_eq!(list.items.len(), 2);
    assert_eq!(list.items[0].text, "milk");
    assert_eq!(list.items[0].last_updated, at(2));
    assert_eq!(list.items[1].text, "eggs");
    assert_eq!(list.items[1].item_type, ItemType::Note);
    assert_eq!(list.items[1].status, ItemStatus::Incomplete);
    assert_eq!(list.items[1].created, at(8));
    assert_eq!(list.last_updated, at(8));
}

#[test]
fn out_of_range_coordinates_change_nothing() {
    let mut list = groceries();
    let r = list.act_on_item_at_time(&mut vec![3, 1], ItemAction::Edit("x".to_string()), at(9));
    assert!(r.is_none());
    let r = list.act_on_item_at_time(&mut vec![0], ItemAction::Remove, at(9));
    assert!(r.is_none());
    let r = list.act_on_item_at_time(&mut vec![2], ItemAction::Remove, at(9));
    assert!(r.is_none());
    assert_eq!(list.items.len(), 1);
    assert_eq!(list.items[0].sub_items[0].text, "2%  ");
    assert_eq!(list.items[0].last_updated, at(2));
    assert_eq!(list.last_updated, at(2));
}

#[test]
fn path_is_used_up() {
    let mut list = groceries();
    let mut path = vec![1, 1];
    list.act_on_item_at_time(&mut path, ItemAction::ToggleHidden, at(3));
    assert!(path.is_empty());
    assert!(list.items[0].sub_items[0].hidden);
}

#[test]
fn node_actions_apply_at_target() {
    let mut list = groceries();
    list.act_on_item_at_time(&mut vec![1], ItemAction::CycleStatus, at(3));
    assert_eq!(list.items[0].status, ItemStatus::Complete);
    list.act_on_item_at_time(&mut vec![1], ItemAction::CycleStatus, at(3));
    assert_eq!(list.items[0].status, ItemStatus::Disabled);
    list.act_on_item_at_time(&mut vec![1], ItemAction::CycleStatus, at(3));
    assert_eq!(list.items[0].status, ItemStatus::Incomplete);
    list.act_on_item_at_time(&mut vec![1], ItemAction::ToggleType, at(4));
    assert_eq!(list.items[0].item_type, ItemType::Note);
    list.act_on_item_at_time(&mut vec![1], ItemAction::Edit("oat milk".to_string()), at(5));
    assert_eq!(list.items[0].text, "oat milk");
    list.act_on_item_at_time(&mut vec![1], ItemAction::AlterHidden(true), at(6));
    assert!(list.items[0].hidden);
    assert_eq!(list.items[0].last_updated, at(6));
    assert_eq!(list.items[0].sub_items[0].last_updated, at(2));
    assert_eq!(list.last_updated, at(6));
    assert_eq!(list.items[0].created, at(1));
}

#[test]
fn timestamps_refresh_along_path() {
    let mut list = groceries();
    list.act_on_item_at_time(&mut vec![1, 1], ItemAction::Edit("skim".to_string()), at(10));
    assert_eq!(list.last_updated, at(10));
    assert_eq!(list.items[0].last_updated, at(10));
    assert_eq!(list.items[0].sub_items[0].last_updated, at(10));
}

#[test]
fn other_action_at_empty_path_is_noop() {
    let mut list = groceries();
    let r = list.act_on_item_at_time(&mut vec![], ItemAction::Edit("x".to_string()), at(10));
    assert!(r.is_none());
    assert_eq!(list.last_updated, at(2));
}

#[test]
fn item_as_holder_removes_nested() {
    let mut list = groceries();
    let mut item = list.items.remove(0);
    let removed = item.act_on_item_at_time(&mut vec![1], ItemAction::Remove, at(4)).expect("removed");
    assert_eq!(removed.text, "2%  ");
    assert!(item.sub_items.is_empty());
    assert_eq!(item.last_updated, at(4));
}

#[test]
fn status_text_for_selections() {
    let mut list = groceries();
    list.act_on_item_at_time(&mut vec![1, 1], ItemAction::AlterStatus(ItemStatus::Complete), at(3));
    let mut c = String::new();
    list.status(&mut c, PrintWhich::Complete);
    assert_eq!(c, "\nComplete: 1");
    let mut i = String::new();
    list.status(&mut i, PrintWhich::Incomplete);
    assert_eq!(i, "\nIncomplete: 1");
    assert_eq!(list.status_counts(PrintWhich::Complete), (1, Some(1), None));
    let empty = List::new_at("e".to_string(), at(0));
    let mut e = String::new();
    empty.status(&mut e, PrintWhich::All);
    assert_eq!(e, "Items: 0");
}

#[test]
fn notes_are_not_counted() {
    let mut list = List::new_at("l".to_string(), at(0));
    list.act_on_item_at_time(&mut vec![], ItemAction::Add(ItemType::Note, "n".to_string()), at(1));
    list.act_on_item_at_time(&mut vec![1], ItemAction::Add(ItemType::Todo, "t".to_string()), at(1));
    list.act_on_item_at_time(&mut vec![1, 1], ItemAction::Add(ItemType::Todo, "deep".to_string()), at(1));
    assert_eq!(list.status_counts(PrintWhich::All), (1, Some(0), Some(2)));
    assert_eq!(list.items[0].count_incomplete(), 2);
    assert!(list.items[0].has_incomplete());
    assert!(!list.items[0].has_complete());
}

#[test]
fn sort_by_created_orders_top_level() {
    let mut list = List::new_at("l".to_string(), at(0));
    list.items.push(Item::new_at(ItemType::Todo, "c".to_string(), at(30)));
    list.items.push(Item::new_at(ItemType::Todo, "a".to_string(), at(10)));
    list.items.push(Item::new_at(ItemType::Todo, "b".to_string(), at(20)));
    list.items.push(Item::new_at(ItemType::Todo, "a2".to_string(), at(10)));
    list.sort_by_created();
    let texts: Vec<&str> = list.items.iter().map(|i| i.text.as_str()).collect();
    assert_eq!(texts.len(), 4);
    assert_eq!(texts[0], "a");
    assert_eq!(texts[1], "a2");
    assert_eq!(texts[2], "b");
    assert_eq!(texts[3], "c");
}

#[test]
fn highest_num_is_widest_holder() {
    let mut list = List::new_at("l".to_string(), at(0));
    list.act_on_item_at_time(&mut vec![], ItemAction::Add(ItemType::Todo, "a".to_string()), at(1));
    for _ in 0..12 {
        list.act_on_item_at_time(&mut vec![1], ItemAction::Add(ItemType::Todo, "x".to_string()), at(1));
    }
    assert_eq!(list.get_highest_num(), 12);
    assert_eq!(list.get_spacing_count(), 2);
    assert_eq!(list.items[0].get_highest_num(0), 12);
    assert_eq!(list.items[0].get_highest_num(40), 40);
}

#[test]
fn new_item_defaults() {
    let item = Item::new(ItemType::Todo, "x".to_string());
    assert_eq!(item.status, ItemStatus::Incomplete);
    assert!(!item.hidden);
    assert!(item.sub_items.is_empty());
    assert_eq!(item.created, item.last_updated);
    let list = List::new("name".to_string());
    assert_eq!(list.name, "name");
    assert!(list.items.is_empty());
}

#[test]
fn sort_by_created_keeps_ties_in_order() {
    let mut list = List::new_at("l".to_string(), at(0));
    let late = Timestamp { secs: 5, nanos: 2, offset: 0 };
    let early = Timestamp { secs: 5, nanos: 1, offset: 3_600 };
    list.items.push(Item::new_at(ItemType::Todo, "t1".to_string(), late));
    list.items.push(Item::new_at(ItemType::Note, "e".to_string(), early));
    list.items.push(Item::new_at(ItemType::Todo, "t2".to_string(), late));
    list.items.push(Item::new_at(ItemType::Todo, "t3".to_string(), Timestamp { secs: 5, nanos: 2, offset: -7_200 }));
    list.sort_by_created();
    let texts: Vec<&str> = list.items.iter().map(|i| i.text.as_str()).collect();
    assert_eq!(texts, vec!["e", "t1", "t2", "t3"]);
}

#[test]
fn move_with_clock_keeps_count_and_content() {
    let mut list = groceries();
    list.act_on_item_at(&mut vec![], ItemAction::Add(ItemType::Note, "bread".to_string()));
    let total = count_nodes(&list.items);
    let moved = list.move_item(&mut vec![1], &mut vec![1]);
    assert!(moved);
    assert_eq!(count_nodes(&list.items), total);
    assert_eq!(list.items.len(), 1);
    assert_eq!(list.items[0].text, "bread");
    let arrived = list.items[0].sub_items.last().expect("moved entry");
    assert_eq!(arrived.text, "milk");
    assert_eq!(arrived.created, at(1));
    assert_eq!(arrived.sub_items[0].text, "2%  ");
}

#[test]
fn check_twice_with_clock_changes_only_stamps() {
    let mut once = groceries();
    once.act_on_item_at(&mut vec![1, 1], ItemAction::AlterStatus(ItemStatus::Complete));
    let mut twice = groceries();
    twice.act_on_item_at(&mut vec![1, 1], ItemAction::AlterStatus(ItemStatus::Complete));
    twice.act_on_item_at(&mut vec![1, 1], ItemAction::AlterStatus(ItemStatus::Complete));
    assert!(same_content(&once.items[0], &twice.items[0]));
    assert_eq!(twice.items[0].sub_items[0].status, ItemStatus::Complete);
}
