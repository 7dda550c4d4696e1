use todo_fargate::item::{AttributeValue, Item};
use todo_fargate::model::{
    attribute_name, DataFault, Error, Field, Todo, MAX_CREATED_MILLIS, MIN_CREATED_MILLIS,
};
use todo_fargate::repository::todo_repository::{todo_item, todo_list_mapper, todo_mapper};

fn milk() -> Todo {
    Todo {
        id: "t1".to_string(),
        title: "Buy milk".to_string(),
        description: "2%".to_string(),
        created: 1_700_000_000_000,
    }
}

fn stored(id: &str, title: &str, description: &str, created: &str) -> Item {
    let mut item = Item::new();
    item.insert("id".to_string(), AttributeValue::S(id.to_string()));
    item.insert("title".to_string(), AttributeValue::S(title.to_string()));
    item.insert("description".to_string(), AttributeValue::S(description.to_string()));
    item.insert("created".to_string(), AttributeValue::N(created.to_string()));
    item
}

#[test]
fn attribute_names() {
    assert_eq!(attribute_name(Field::Id), "id");
    assert_eq!(attribute_name(Field::Title), "title");
    assert_eq!(attribute_name(Field::Description), "description");
    assert_eq!(attribute_name(Field::Created), "created");
}

#[test]
fn item_of_a_todo_holds_the_four_fields() {
    let item = todo_item(&milk());
    assert_eq!(item.get("id").and_then(|v| v.as_s()), Some(&"t1".to_string()));
    assert_eq!(item.get("title").and_then(|v| v.as_s()), Some(&"Buy milk".to_string()));
    assert_eq!(item.get("description").and_then(|v| v.as_s()), Some(&"2%".to_string()));
    assert_eq!(item.get("created").and_then(|v| v.as_n()), Some(&"1700000000000".to_string()));
    assert_eq!(item.attributes().len(), 4);
}

#[test]
fn item_of_a_todo_reads_back_as_that_todo() {
    let todo = todo_mapper(&todo_item(&milk())).unwrap();
    assert_eq!(todo.id, "t1");
    assert_eq!(todo.title, "Buy milk");
    assert_eq!(todo.description, "2%");
    assert_eq!(todo.created, 1_700_000_000_000);
}

#[test]
fn negative_creation_time_reads_back() {
    let mut early = milk();
    early.created = -1;
    let todo = todo_mapper(&todo_item(&early)).unwrap();
    assert_eq!(todo.created, -1);
}

#[test]
fn missing_fields_are_faults_in_field_order() {
    let empty = Item::new();
    assert_eq!(todo_mapper(&empty).err(), Some(DataFault::MissingField(Field::Id)));
    let mut item = Item::new();
    item.insert("id".to_string(), AttributeValue::S("t1".to_string()));
    assert_eq!(todo_mapper(&item).err(), Some(DataFault::MissingField(Field::Title)));
    item.insert("title".to_string(), AttributeValue::S("a".to_string()));
    assert_eq!(todo_mapper(&item).err(), Some(DataFault::MissingField(Field::Description)));
    item.insert("description".to_string(), AttributeValue::S("b".to_string()));
    assert_eq!(todo_mapper(&item).err(), Some(DataFault::MissingField(Field::Created)));
    item.insert("created".to_string(), AttributeValue::N("1".to_string()));
    assert!(todo_mapper(&item).is_ok());
}

#[test]
fn fields_of_the_wrong_kind_are_faults() {
    let mut item = stored("t1", "a", "b", "1");
    item.insert("id".to_string(), AttributeValue::N("1".to_string()));
    assert_eq!(todo_mapper(&item).err(), Some(DataFault::WrongType(Field::Id)));
    let mut item = stored("t1", "a", "b", "1");
    item.insert("title".to_string(), AttributeValue::Other);
    assert_eq!(todo_mapper(&item).err(), Some(DataFault::WrongType(Field::Title)));
    let mut item = stored("t1", "a", "b", "1");
    item.insert("description".to_string(), AttributeValue::N("2".to_string()));
    assert_eq!(todo_mapper(&item).err(), Some(DataFault::WrongType(Field::Description)));
    let mut item = stored("t1", "a", "b", "1");
    item.insert("created".to_string(), AttributeValue::S("1".to_string()));
    assert_eq!(todo_mapper(&item).err(), Some(DataFault::WrongType(Field::Created)));
}

#[test]
fn earlier_fault_comes_first() {
    let mut item = Item::new();
    item.insert("id".to_string(), AttributeValue::Other);
    item.insert("created".to_string(), AttributeValue::N("x".to_string()));
    assert_eq!(todo_mapper(&item).err(), Some(DataFault::WrongType(Field::Id)));
}

#[test]
fn unparsable_creation_time_is_a_fault() {
    assert_eq!(
        todo_mapper(&stored("t1", "a", "b", "yesterday")).err(),
        Some(DataFault::UnparsableCreated)
    );
    assert_eq!(todo_mapper(&stored("t1", "a", "b", "")).err(), Some(DataFault::UnparsableCreated));
    assert_eq!(
        todo_mapper(&stored("t1", "a", "b", "1700000000000.5")).err(),
        Some(DataFault::UnparsableCreated)
    );
    assert_eq!(
        todo_mapper(&stored("t1", "a", "b", "9223372036854775808")).err(),
        Some(DataFault::UnparsableCreated)
    );
}

#[test]
fn creation_time_out_of_range_is_a_fault() {
    assert_eq!(
        todo_mapper(&stored("t1", "a", "b", "9223372036854775807")).err(),
        Some(DataFault::CreatedOutOfRange)
    );
    let below = (MIN_CREATED_MILLIS - 1).to_string();
    let above = (MAX_CREATED_MILLIS + 1).to_string();
    assert_eq!(todo_mapper(&stored("t1", "a", "b", &below)).err(), Some(DataFault::CreatedOutOfRange));
    assert_eq!(todo_mapper(&stored("t1", "a", "b", &above)).err(), Some(DataFault::CreatedOutOfRange));
}

#[test]
fn creation_time_at_the_ends_of_the_range_is_read() {
    let first = MIN_CREATED_MILLIS.to_string();
    let last = MAX_CREATED_MILLIS.to_string();
    assert_eq!(todo_mapper(&stored("t1", "a", "b", &first)).unwrap().created, MIN_CREATED_MILLIS);
    assert_eq!(todo_mapper(&stored("t1", "a", "b", &last)).unwrap().created, MAX_CREATED_MILLIS);
}

#[test]
fn range_of_creation_times_is_that_of_date_times() {
    assert!(chrono::DateTime::from_timestamp_millis(MIN_CREATED_MILLIS).is_some());
    assert!(chrono::DateTime::from_timestamp_millis(MIN_CREATED_MILLIS - 1).is_none());
    assert!(chrono::DateTime::from_timestamp_millis(MAX_CREATED_MILLIS).is_some());
    assert!(chrono::DateTime::from_timestamp_millis(MAX_CREATED_MILLIS + 1).is_none());
    assert_eq!(
        chrono::DateTime::<chrono::Utc>::MIN_UTC.timestamp_millis(),
        MIN_CREATED_MILLIS
    );
    assert_eq!(
        chrono::DateTime::<chrono::Utc>::MAX_UTC.timestamp_millis(),
        MAX_CREATED_MILLIS
    );
}

#[test]
fn well_formed_todo_has_a_creation_time_in_range() {
    let mut todo = milk();
    assert!(todo.is_well_formed());
    todo.created = MIN_CREATED_MILLIS;
    assert!(todo.is_well_formed());
    todo.created = MIN_CREATED_MILLIS - 1;
    assert!(!todo.is_well_formed());
    todo.created = MAX_CREATED_MILLIS;
    assert!(todo.is_well_formed());
    todo.created = MAX_CREATED_MILLIS + 1;
    assert!(!todo.is_well_formed());
    todo.created = i64::MIN;
    assert!(!todo.is_well_formed());
}

#[test]
fn list_is_read_in_order() {
    let items = vec![stored("a", "1", "x", "1"), stored("b", "2", "y", "2"), stored("c", "3", "z", "3")];
    let todos = todo_list_mapper(&items).unwrap();
    assert_eq!(todos.len(), 3);
    assert_eq!(todos[0].id, "a");
    assert_eq!(todos[1].id, "b");
    assert_eq!(todos[2].id, "c");
    assert_eq!(todos[2].created, 3);
}

#[test]
fn empty_list_is_read_as_empty() {
    let items: Vec<Item> = Vec::new();
    assert_eq!(todo_list_mapper(&items).unwrap().len(), 0);
}

#[test]
fn one_faulty_item_fails_the_whole_list() {
    let mut broken = stored("b", "2", "y", "2");
    broken.insert("title".to_string(), AttributeValue::Other);
    let items = vec![stored("a", "1", "x", "1"), broken, stored("c", "3", "z", "oops")];
    assert_eq!(todo_list_mapper(&items).err(), Some(DataFault::WrongType(Field::Title)));
}

#[test]
fn fault_messages() {
    assert_eq!(DataFault::MissingField(Field::Created).message(), "missing field: created");
    assert_eq!(DataFault::WrongType(Field::Id).message(), "field of the wrong type: id");
    assert_eq!(DataFault::UnparsableCreated.message(), "unparsable DATE/TIME");
    assert_eq!(DataFault::CreatedOutOfRange.message(), "DATE/TIME out of range");
    assert_eq!(DataFault::DuplicateKey.message(), "More than one item found");
    assert_eq!(Error::Store("connection refused".to_string()).message(), "connection refused");
    assert_eq!(Error::Data(DataFault::DuplicateKey).message(), "More than one item found");
}

#[test]
fn clone_of_a_todo_is_equal_in_all_fields() {
    let copy = milk().clone();
    assert_eq!(copy.id, "t1");
    assert_eq!(copy.title, "Buy milk");
    assert_eq!(copy.description, "2%");
    assert_eq!(copy.created, 1_700_000_000_000);
}
