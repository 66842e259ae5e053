use evm_exporter::history::History;
use evm_exporter::store::{Record, Store};
use evm_exporter::table::Table;

fn text(s: &str) -> String {
    String::from(s)
}

#[test]
fn empty_history_has_no_value() {
    let history = History::new();
    assert_eq!(history.get_as_of(0), None);
    assert_eq!(history.get_as_of(u32::MAX), None);
    assert_eq!(history.get_latest(), None);
}

#[test]
fn value_holds_from_its_height_to_the_next() {
    let mut history = History::new();
    history.put(10, text("a"));
    history.put(20, text("b"));
    history.put(30, text("c"));
    for h in 10..20 {
        assert_eq!(history.get_as_of(h), Some("a"));
    }
    for h in 20..30 {
        assert_eq!(history.get_as_of(h), Some("b"));
    }
    assert_eq!(history.get_as_of(30), Some("c"));
    assert_eq!(history.get_as_of(u32::MAX), Some("c"));
}

#[test]
fn nothing_is_read_before_the_first_height() {
    let mut history = History::new();
    history.put(10, text("a"));
    for h in 0..10 {
        assert_eq!(history.get_as_of(h), None);
    }
}

#[test]
fn latest_is_at_the_greatest_height_in_any_order() {
    let orders: [[u32; 3]; 6] =
        [[1, 2, 3], [1, 3, 2], [2, 1, 3], [2, 3, 1], [3, 1, 2], [3, 2, 1]];
    for order in orders {
        let mut history = History::new();
        for h in order {
            history.put(h, format!("v{}", h));
        }
        assert_eq!(history.get_latest(), Some("v3"));
        assert_eq!(history.get_as_of(2), Some("v2"));
        assert_eq!(history.get_as_of(1), Some("v1"));
        assert_eq!(history.get_as_of(0), None);
    }
}

#[test]
fn the_last_write_at_one_height_stands() {
    let mut history = History::new();
    history.put(5, text("first"));
    history.put(5, text("second"));
    assert_eq!(history.get_as_of(5), Some("second"));
    assert_eq!(history.get_latest(), Some("second"));
    assert_eq!(history.get_as_of(4), None);
}

#[test]
fn a_write_made_again_changes_nothing() {
    let mut history = History::new();
    history.put(5, text("v"));
    history.put(9, text("w"));
    history.put(5, text("v"));
    assert_eq!(history.get_as_of(5), Some("v"));
    assert_eq!(history.get_as_of(8), Some("v"));
    assert_eq!(history.get_as_of(9), Some("w"));
}

#[test]
fn heights_zero_and_largest_are_recorded() {
    let mut history = History::new();
    history.put(u32::MAX, text("top"));
    history.put(0, text("bottom"));
    assert_eq!(history.get_as_of(0), Some("bottom"));
    assert_eq!(history.get_as_of(u32::MAX - 1), Some("bottom"));
    assert_eq!(history.get_as_of(u32::MAX), Some("top"));
    assert_eq!(history.get_latest(), Some("top"));
}

#[test]
fn many_versions_are_kept_and_found() {
    let mut history = History::new();
    let mut h: u32 = 997;
    for _ in 0..1000 {
        h = (h * 7 + 3) % 10007;
        history.put(h * 2, format!("{}", h * 2));
    }
    let mut probe: u32 = 997;
    for _ in 0..1000 {
        probe = (probe * 7 + 3) % 10007;
        assert_eq!(history.get_as_of(probe * 2), Some(format!("{}", probe * 2).as_str()));
        assert_eq!(history.get_as_of(probe * 2 + 1), Some(format!("{}", probe * 2).as_str()));
    }
}

#[test]
fn store_keeps_the_histories_of_keys_apart() {
    let mut store = Store::new();
    store.put(text("a"), 10, text("a10"));
    store.put(text("b"), 5, text("b5"));
    store.put(text("a"), 20, text("a20"));
    assert_eq!(store.get_as_of("a", 15), Some("a10"));
    assert_eq!(store.get_as_of("a", 25), Some("a20"));
    assert_eq!(store.get_as_of("b", 15), Some("b5"));
    assert_eq!(store.get_as_of("b", 4), None);
    assert_eq!(store.get_as_of("c", 100), None);
    assert_eq!(store.get_latest("a"), Some("a20"));
    assert_eq!(store.get_latest("b"), Some("b5"));
    assert_eq!(store.get_latest("c"), None);
}

#[test]
fn plain_records_hold_one_value() {
    let mut store = Store::new();
    assert_eq!(store.get("k"), None);
    store.set(text("k"), text("1"));
    assert_eq!(store.get("k"), Some("1"));
    store.set(text("k"), text("2"));
    assert_eq!(store.get("k"), Some("2"));
    assert_eq!(store.get("other"), None);
}

#[test]
fn plain_and_versioned_records_do_not_meet() {
    let mut store = Store::new();
    store.set(text("k"), text("plain"));
    store.put(text("k"), 1, text("versioned"));
    assert_eq!(store.get("k"), Some("plain"));
    assert_eq!(store.get_as_of("k", 1), Some("versioned"));
    assert_eq!(store.get_as_of("k", 0), None);
}

#[test]
fn set_all_sets_in_order() {
    let mut store = Store::new();
    store.set_all(vec![
        Record { key: text("a"), value: text("1") },
        Record { key: text("b"), value: text("2") },
        Record { key: text("a"), value: text("3") },
    ]);
    assert_eq!(store.get("a"), Some("3"));
    assert_eq!(store.get("b"), Some("2"));
}

#[test]
fn clear_empties_the_store() {
    let mut store = Store::new();
    store.set(text("k"), text("1"));
    store.put(text("v"), 3, text("x"));
    store.clear();
    assert_eq!(store.get("k"), None);
    assert_eq!(store.get_as_of("v", 3), None);
    assert_eq!(store.get_latest("v"), None);
}

#[test]
fn table_inserts_replaces_and_removes() {
    let mut table: Table<u32> = Table::new();
    assert_eq!(table.get(&text("a")), None);
    table.insert(text("a"), 1);
    table.insert(text("b"), 2);
    table.insert(text("a"), 3);
    assert_eq!(table.get(&text("a")), Some(&3));
    assert_eq!(table.get(&text("b")), Some(&2));
    assert_eq!(table.remove(&text("a")), Some(3));
    assert_eq!(table.remove(&text("a")), None);
    assert_eq!(table.get(&text("a")), None);
    assert_eq!(table.get(&text("b")), Some(&2));
    table.clear();
    assert_eq!(table.get(&text("b")), None);
}
