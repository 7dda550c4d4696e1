use todo_fargate::item::{AttributeValue, Item};
use todo_fargate::model::{DataFault, Error, Field, Todo};
use todo_fargate::repository::table::Table;
use todo_fargate::service::todo_service::{
    delete_todo, edit_todo, get_todos, insert_todo, respond, server_error, ServerFnError,
};

fn milk() -> Todo {
    Todo {
        id: "t1".to_string(),
        title: "Buy milk".to_string(),
        description: "2%".to_string(),
        created: 1_700_000_000_000,
    }
}

#[test]
fn server_error_carries_the_text_of_the_failure() {
    let error = server_error(&Error::Store("connection refused".to_string()));
    assert_eq!(error.message(), "connection refused");
    let error = server_error(&Error::Data(DataFault::MissingField(Field::Title)));
    assert_eq!(error.message(), "missing field: title");
}

#[test]
fn respond_hands_on_a_value() {
    let out: Result<i32, ServerFnError> = respond(Ok(5));
    assert_eq!(out.unwrap(), 5);
}

#[test]
fn respond_wraps_a_failure() {
    let out: Result<(), ServerFnError> = respond(Err(Error::Store("throttled".to_string())));
    assert!(matches!(out, Err(ServerFnError::ServerError(text)) if text == "throttled"));
}

#[test]
fn service_round_trip() {
    let mut table = Table::new();
    assert!(insert_todo(&mut table, milk()).is_ok());
    let todos = get_todos(&table).unwrap();
    assert_eq!(todos.len(), 1);
    assert_eq!(todos[0].title, "Buy milk");
    let mut changed = milk();
    changed.title = "Buy tea".to_string();
    changed.created = 0;
    assert!(edit_todo(&mut table, changed).is_ok());
    let todos = get_todos(&table).unwrap();
    assert_eq!(todos[0].title, "Buy tea");
    assert_eq!(todos[0].created, 1_700_000_000_000);
    assert!(delete_todo(&mut table, "t1".to_string()).is_ok());
    assert!(delete_todo(&mut table, "t1".to_string()).is_ok());
    assert_eq!(get_todos(&table).unwrap().len(), 0);
}

#[test]
fn listing_a_faulty_table_gives_the_text_of_the_fault() {
    let mut table = Table::new();
    let mut item = Item::new();
    item.insert("id".to_string(), AttributeValue::S("t1".to_string()));
    item.insert("title".to_string(), AttributeValue::S("a".to_string()));
    item.insert("description".to_string(), AttributeValue::S("b".to_string()));
    item.insert("created".to_string(), AttributeValue::N("never".to_string()));
    table.put_item(item).unwrap();
    let out = get_todos(&table);
    assert!(matches!(out, Err(ServerFnError::ServerError(text)) if text == "unparsable DATE/TIME"));
}
