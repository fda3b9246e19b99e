use tig_protocol::table::{all_distinct, find, Table};

fn id(text: &str) -> String {
    String::from(text)
}

#[test]
fn find_gives_the_first_place() {
    let ids = vec![id("a"), id("b"), id("a")];
    assert_eq!(find(&ids, &id("a")), Some(0));
    assert_eq!(find(&ids, &id("b")), Some(1));
    assert_eq!(find(&ids, &id("c")), None);
    assert_eq!(find(&Vec::new(), &id("a")), None);
}

#[test]
fn all_distinct_finds_repeats() {
    assert!(all_distinct(&Vec::new()));
    assert!(all_distinct(&vec![id("a"), id("b"), id("c")]));
    assert!(!all_distinct(&vec![id("a"), id("b"), id("a")]));
    assert!(!all_distinct(&vec![id("a"), id("a")]));
}

#[test]
fn new_table_is_empty() {
    let table: Table<u32> = Table::new();
    assert_eq!(table.len(), 0);
    assert!(table.is_well_formed());
    assert_eq!(table.get(&id("a")), None);
    assert!(!table.contains(&id("a")));
}

#[test]
fn insert_keeps_insertion_order() {
    let mut table: Table<u32> = Table::new();
    assert_eq!(table.insert(id("b"), 2), None);
    assert_eq!(table.insert(id("a"), 1), None);
    assert_eq!(table.insert(id("c"), 3), None);
    assert_eq!(table.ids, vec![id("b"), id("a"), id("c")]);
    assert_eq!(table.rows, vec![2, 1, 3]);
    assert_eq!(table.len(), 3);
    assert_eq!(table.position(&id("a")), Some(1));
    assert_eq!(table.position(&id("d")), None);
    assert_eq!(table.get(&id("c")), Some(&3));
    assert!(table.contains(&id("b")));
    assert!(table.is_well_formed());
}

#[test]
fn insert_replaces_in_place() {
    let mut table: Table<u32> = Table::new();
    table.insert(id("a"), 1);
    table.insert(id("b"), 2);
    assert_eq!(table.insert(id("a"), 7), Some(1));
    assert_eq!(table.ids, vec![id("a"), id("b")]);
    assert_eq!(table.rows, vec![7, 2]);
    assert_eq!(table.get(&id("a")), Some(&7));
}

#[test]
fn is_well_formed_refuses_repeats_and_missing_rows() {
    let repeated = Table { ids: vec![id("a"), id("a")], rows: vec![1u32, 2] };
    assert!(!repeated.is_well_formed());
    let short = Table { ids: vec![id("a"), id("b")], rows: vec![1u32] };
    assert!(!short.is_well_formed());
    let good = Table { ids: vec![id("a"), id("b")], rows: vec![1u32, 2] };
    assert!(good.is_well_formed());
}
