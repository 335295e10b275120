use revset_explorer::history::History;

#[test]
fn add() {
    let mut h = History::new(10);
    h.add("@", false);
    h.add("@-", false);
    h.add("@--", false);
    assert_eq!(h.items().len(), 3);
    assert_eq!(*h.items(), vec!["@", "@-", "@--"]);
}

#[test]
fn duplicates_are_ignored() {
    let mut h = History::new(10);
    h.add("@-", false);
    h.add("@-", false);
    assert_eq!(h.items().len(), 1);
}

#[test]
fn max_size() {
    let mut h = History::new(2);
    h.add("@", false);
    h.add("@-", false);
    h.add("@--", false);
    assert_eq!(*h.items(), vec!["@-", "@--"]);
}

#[test]
fn get() {
    let mut h = History::new(10);
    h.add("@", false);
    h.add("@-", false);
    assert_eq!(h.get(), "@-");
}

#[test]
fn prev() {
    let mut h = History::new(10);
    h.add("@", false);
    h.add("@-", false);
    h.add("@--", false);
    assert_eq!(h.get(), "@--");
    h.prev();
    assert_eq!(h.get(), "@-");
    h.prev();
    assert_eq!(h.get(), "@");
}

#[test]
fn prev_saturate() {
    let mut h = History::new(10);
    h.add("@", false);
    h.prev();
    h.prev();
    assert_eq!(h.get(), "@");
}

#[test]
fn next() {
    let mut h = History::new(10);
    h.add("@", false);
    h.add("@-", false);
    h.add("@--", false);
    h.prev();
    h.prev();
    assert_eq!(h.get(), "@");
    h.next();
    assert_eq!(h.get(), "@-");
    h.next();
    assert_eq!(h.get(), "@--");
}

#[test]
fn next_saturate() {
    let mut h = History::new(10);
    h.add("@", false);
    h.next();
    assert_eq!(h.get(), "@");
}

#[test]
fn add_tentative() {
    let mut h = History::new(10);
    h.add("@", false);
    h.add("@-", true);
    assert_eq!(*h.items(), vec!["@", "@-"]);
}

#[test]
fn discard_tentative_on_new_add() {
    let mut h = History::new(10);
    h.add("@", true);
    h.add("@-", false);
    assert_eq!(*h.items(), vec!["@-"]);

    let mut h = History::new(10);
    h.add("@", true);
    h.add("@-", true);
    assert_eq!(*h.items(), vec!["@-"]);
}

#[test]
fn discard_tentative_on_new_add_when_looking_at_the_past() {
    let mut h = History::new(10);
    h.add("::", false);
    h.add("@", true);
    h.prev();
    h.add("@--", false);
    assert_eq!(*h.items(), vec!["::", "@--"]);
}

#[test]
fn keep_tentative_on_navigation() {
    let mut h = History::new(10);
    h.add("@", false);
    h.add("@-", true);
    h.prev();
    h.next();
    assert_eq!(*h.items(), vec!["@", "@-"]);

    let mut h = History::new(10);
    h.add("@", false);
    h.add("@-", true);
    h.next();
    assert_eq!(*h.items(), vec!["@", "@-"]);
}

#[test]
fn three_adds_then_back_twice_and_forward_once() {
    let mut h = History::new(10);
    h.add("@", false);
    h.add("@-", false);
    h.add("@--", false);
    assert_eq!(*h.items(), vec!["@", "@-", "@--"]);
    assert_eq!(h.get(), "@--");
    h.prev();
    h.prev();
    assert_eq!(h.get(), "@");
    h.next();
    assert_eq!(h.get(), "@-");
}

#[test]
fn tentative_entry_is_replaced_by_the_next_value() {
    let mut h = History::new(10);
    h.add("@", true);
    h.add("@-", false);
    assert_eq!(*h.items(), vec!["@-"]);
    assert_eq!(h.len(), 1);
}

#[test]
fn tentative_entry_is_discarded_after_stepping_back() {
    let mut h = History::new(10);
    h.add("x", false);
    h.add("y", true);
    h.prev();
    h.add("z", false);
    assert_eq!(*h.items(), vec!["x", "z"]);
    assert_eq!(h.get(), "z");
}

#[test]
fn new_history_is_empty() {
    let h = History::new(3);
    assert!(h.is_empty());
    assert_eq!(h.len(), 0);
    assert!(h.items().is_empty());
}

#[test]
fn stepping_in_an_empty_history_does_nothing() {
    let mut h = History::new(3);
    h.prev();
    h.next();
    h.next();
    assert!(h.is_empty());
    h.add("a", false);
    assert_eq!(h.get(), "a");
}

#[test]
fn add_moves_the_cursor_to_the_new_entry() {
    let mut h = History::new(10);
    h.add("a", false);
    h.add("b", false);
    h.prev();
    assert_eq!(h.get(), "a");
    h.add("c", false);
    assert_eq!(h.get(), "c");
    assert_eq!(*h.items(), vec!["a", "b", "c"]);
}

#[test]
fn repeated_value_leaves_cursor_and_flag() {
    let mut h = History::new(10);
    h.add("a", false);
    h.add("b", true);
    h.prev();
    h.add("b", false);
    assert_eq!(h.get(), "a");
    assert_eq!(*h.items(), vec!["a", "b"]);
    // The newest entry is still provisional: the next value replaces it.
    h.add("c", false);
    assert_eq!(*h.items(), vec!["a", "c"]);
}

#[test]
fn set_last_tentative_makes_the_newest_entry_replaceable() {
    let mut h = History::new(10);
    h.add("a", false);
    h.add("b", false);
    h.set_last_tentative(true);
    assert_eq!(*h.items(), vec!["a", "b"]);
    h.add("c", false);
    assert_eq!(*h.items(), vec!["a", "c"]);

    let mut h = History::new(10);
    h.add("a", false);
    h.add("b", true);
    h.set_last_tentative(false);
    h.add("c", false);
    assert_eq!(*h.items(), vec!["a", "b", "c"]);
}

#[test]
fn full_history_with_tentative_entry_loses_oldest_and_newest() {
    let mut h = History::new(3);
    h.add("a", false);
    h.add("b", false);
    h.add("c", true);
    h.add("d", false);
    assert_eq!(*h.items(), vec!["b", "d"]);
    assert_eq!(h.get(), "d");
}

#[test]
fn capacity_one_keeps_the_newest_value() {
    let mut h = History::new(1);
    h.add("a", false);
    h.add("b", false);
    assert_eq!(*h.items(), vec!["b"]);
    h.add("c", true);
    h.add("d", true);
    assert_eq!(*h.items(), vec!["d"]);
    assert_eq!(h.get(), "d");
}

#[test]
fn capacity_zero_still_holds_one_value() {
    let mut h = History::new(0);
    h.add("a", false);
    assert_eq!(*h.items(), vec!["a"]);
    h.add("b", false);
    assert_eq!(*h.items(), vec!["b"]);
    assert_eq!(h.get(), "b");
}

#[test]
fn value_equal_to_entry_behind_tentative_one_is_kept_twice() {
    let mut h = History::new(10);
    h.add("a", false);
    h.add("b", true);
    h.add("a", false);
    assert_eq!(*h.items(), vec!["a", "a"]);
}
