use todo_fargate::item::{AttributeValue, Item};

fn text(value: Option<&AttributeValue>) -> Option<String> {
    match value {
        Some(AttributeValue::S(s)) => Some(format!("S:{}", s)),
        Some(AttributeValue::N(n)) => Some(format!("N:{}", n)),
        Some(AttributeValue::Other) => Some("other".to_string()),
        None => None,
    }
}

#[test]
fn new_item_is_empty() {
    let item = Item::new();
    assert!(item.get("id").is_none());
    assert!(item.attributes().is_empty());
}

#[test]
fn insert_then_get() {
    let mut item = Item::new();
    item.insert("id".to_string(), AttributeValue::S("t1".to_string()));
    item.insert("created".to_string(), AttributeValue::N("5".to_string()));
    assert_eq!(text(item.get("id")), Some("S:t1".to_string()));
    assert_eq!(text(item.get("created")), Some("N:5".to_string()));
    assert_eq!(text(item.get("title")), None);
}

#[test]
fn insert_replaces_what_was_there() {
    let mut item = Item::new();
    item.insert("title".to_string(), AttributeValue::S("old".to_string()));
    item.insert("other".to_string(), AttributeValue::Other);
    item.insert("title".to_string(), AttributeValue::S("new".to_string()));
    assert_eq!(text(item.get("title")), Some("S:new".to_string()));
    assert_eq!(text(item.get("other")), Some("other".to_string()));
    assert_eq!(item.attributes().len(), 2);
}

#[test]
fn merge_prefers_the_other_item() {
    let mut item = Item::new();
    item.insert("id".to_string(), AttributeValue::S("t1".to_string()));
    item.insert("title".to_string(), AttributeValue::S("old".to_string()));
    let mut changes = Item::new();
    changes.insert("title".to_string(), AttributeValue::S("new".to_string()));
    changes.insert("description".to_string(), AttributeValue::S("d".to_string()));
    item.merge(&changes);
    assert_eq!(text(item.get("id")), Some("S:t1".to_string()));
    assert_eq!(text(item.get("title")), Some("S:new".to_string()));
    assert_eq!(text(item.get("description")), Some("S:d".to_string()));
    assert_eq!(item.attributes().len(), 3);
}

#[test]
fn clone_keeps_the_attributes() {
    let mut item = Item::new();
    item.insert("id".to_string(), AttributeValue::S("t1".to_string()));
    let copy = item.clone();
    assert_eq!(text(copy.get("id")), Some("S:t1".to_string()));
}

#[test]
fn as_s_and_as_n_tell_the_kinds_apart() {
    let s = AttributeValue::S("a".to_string());
    let n = AttributeValue::N("1".to_string());
    assert_eq!(s.as_s(), Some(&"a".to_string()));
    assert_eq!(s.as_n(), None);
    assert_eq!(n.as_n(), Some(&"1".to_string()));
    assert_eq!(n.as_s(), None);
    assert_eq!(AttributeValue::Other.as_s(), None);
    assert_eq!(AttributeValue::Other.as_n(), None);
}
