use todo_fargate::item::{AttributeValue, Item};
use todo_fargate::repository::table::Table;

fn row(id: &str, note: &str) -> Item {
    let mut item = Item::new();
    item.insert("id".to_string(), AttributeValue::S(id.to_string()));
    item.insert("note".to_string(), AttributeValue::S(note.to_string()));
    item
}

fn note_of(item: &Item) -> String {
    item.get("note").and_then(|v| v.as_s()).unwrap().clone()
}

#[test]
fn new_table_has_no_rows() {
    let table = Table::new();
    assert_eq!(table.len(), 0);
    assert!(table.scan(20).is_empty());
    assert!(table.query("a", 2).is_empty());
}

#[test]
fn put_without_a_key_is_refused() {
    let mut table = Table::new();
    let mut item = Item::new();
    item.insert("note".to_string(), AttributeValue::S("x".to_string()));
    assert!(table.put_item(item).is_err());
    let mut item = Item::new();
    item.insert("id".to_string(), AttributeValue::N("1".to_string()));
    assert!(table.put_item(item).is_err());
    assert_eq!(table.len(), 0);
}

#[test]
fn put_keeps_the_place_of_a_replaced_row() {
    let mut table = Table::new();
    table.put_item(row("a", "1")).unwrap();
    table.put_item(row("b", "2")).unwrap();
    table.put_item(row("a", "3")).unwrap();
    let rows = table.scan(10);
    assert_eq!(rows.len(), 2);
    assert_eq!(note_of(&rows[0]), "3");
    assert_eq!(note_of(&rows[1]), "2");
}

#[test]
fn scan_respects_the_limit() {
    let mut table = Table::new();
    table.put_item(row("a", "1")).unwrap();
    table.put_item(row("b", "2")).unwrap();
    table.put_item(row("c", "3")).unwrap();
    assert_eq!(table.scan(2).len(), 2);
    assert_eq!(table.scan(3).len(), 3);
    assert_eq!(table.scan(4).len(), 3);
    assert_eq!(table.scan(0).len(), 0);
    assert_eq!(table.scan(-1).len(), 0);
    assert_eq!(note_of(&table.scan(1)[0]), "1");
}

#[test]
fn query_finds_the_row_with_the_key() {
    let mut table = Table::new();
    table.put_item(row("a", "1")).unwrap();
    table.put_item(row("b", "2")).unwrap();
    let found = table.query("b", 2);
    assert_eq!(found.len(), 1);
    assert_eq!(note_of(&found[0]), "2");
    assert!(table.query("c", 2).is_empty());
    assert!(table.query("b", 0).is_empty());
}

#[test]
fn update_sets_attributes_and_keeps_the_rest() {
    let mut table = Table::new();
    table.put_item(row("a", "1")).unwrap();
    let mut changes = Item::new();
    changes.insert("extra".to_string(), AttributeValue::N("9".to_string()));
    table.update_item("a", &changes).unwrap();
    let found = table.query("a", 2);
    assert_eq!(note_of(&found[0]), "1");
    assert_eq!(found[0].get("extra").and_then(|v| v.as_n()), Some(&"9".to_string()));
}

#[test]
fn update_of_an_unknown_key_makes_a_row() {
    let mut table = Table::new();
    let mut changes = Item::new();
    changes.insert("note".to_string(), AttributeValue::S("n".to_string()));
    table.update_item("z", &changes).unwrap();
    assert_eq!(table.len(), 1);
    let found = table.query("z", 2);
    assert_eq!(found[0].get("id").and_then(|v| v.as_s()), Some(&"z".to_string()));
    assert_eq!(note_of(&found[0]), "n");
}

#[test]
fn update_of_the_key_is_refused() {
    let mut table = Table::new();
    table.put_item(row("a", "1")).unwrap();
    let mut changes = Item::new();
    changes.insert("id".to_string(), AttributeValue::S("b".to_string()));
    assert!(table.update_item("a", &changes).is_err());
    assert_eq!(table.query("a", 2).len(), 1);
    assert!(table.query("b", 2).is_empty());
}

#[test]
fn delete_removes_the_row_and_keeps_the_order() {
    let mut table = Table::new();
    table.put_item(row("a", "1")).unwrap();
    table.put_item(row("b", "2")).unwrap();
    table.put_item(row("c", "3")).unwrap();
    table.delete_item("b");
    let rows = table.scan(10);
    assert_eq!(rows.len(), 2);
    assert_eq!(note_of(&rows[0]), "1");
    assert_eq!(note_of(&rows[1]), "3");
    table.delete_item("b");
    assert_eq!(table.len(), 2);
}
