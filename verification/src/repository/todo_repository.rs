//! Todos as store items, and the five operations on the Todo table.

use vstd::prelude::*;
use crate::decimal::{format_i64, int_text, lemma_text_round_trip, parse_i64, text_value};
use crate::item::{AttributeValue, AttributeValueView, Item};
use crate::model::{
    attribute_name, created_in_range, datetime_exists, field_name, lemma_field_names_differ,
    todo_views, DataFault, Error, ErrorView, Field, Todo, TodoView,
};
use crate::repository::table::{
    has_key, index_of, item_views, key_item, key_name, key_of, lemma_delete, lemma_put, lemma_update, rows_after_delete, rows_after_put, rows_after_update, rows_queried,
    rows_scanned, rows_well_formed, ItemView, Table,
};

verus! {

/// The item that stores `todo`: its three texts as strings and its creation
/// time as a number, in decimal.
pub open spec fn encoded(todo: TodoView) -> ItemView {
    Map::<Seq<char>, AttributeValueView>::empty().insert(
        field_name(Field::Id),
        AttributeValueView::S(todo.id),
    ).insert(field_name(Field::Title), AttributeValueView::S(todo.title)).insert(
        field_name(Field::Description),
        AttributeValueView::S(todo.description),
    ).insert(field_name(Field::Created), AttributeValueView::N(int_text(todo.created)))
}

/// What is wrong with `field` of `item`, if anything, before its content is
/// looked at: it is missing, or not of the kind that the field has.
pub open spec fn field_fault(item: ItemView, field: Field) -> Option<DataFault> {
    let name = field_name(field);
    if !item.contains_key(name) {
        Some(DataFault::MissingField(field))
    } else if field == Field::Created {
        if item[name] is N {
            None
        } else {
            Some(DataFault::WrongType(field))
        }
    } else if item[name] is S {
        None
    } else {
        Some(DataFault::WrongType(field))
    }
}

/// The text that `item` holds under `field`, be it a string or a number.
pub open spec fn field_text(item: ItemView, field: Field) -> Seq<char> {
    match item[field_name(field)] {
        AttributeValueView::S(s) => s,
        AttributeValueView::N(n) => n,
        AttributeValueView::Other => Seq::empty(),
    }
}

/// The first thing that keeps `item` from being read as a Todo, if anything
/// does. The fields are looked at in the order id, title, description,
/// created; the creation time must then be the decimal text of a 64-bit
/// integer, and that integer a time that a date-time can represent.
pub open spec fn item_fault(item: ItemView) -> Option<DataFault> {
    if field_fault(item, Field::Id) is Some {
        field_fault(item, Field::Id)
    } else if field_fault(item, Field::Title) is Some {
        field_fault(item, Field::Title)
    } else if field_fault(item, Field::Description) is Some {
        field_fault(item, Field::Description)
    } else if field_fault(item, Field::Created) is Some {
        field_fault(item, Field::Created)
    } else {
        match text_value(field_text(item, Field::Created)) {
            None => Some(DataFault::UnparsableCreated),
            Some(millis) => if created_in_range(millis as int) {
                None
            } else {
                Some(DataFault::CreatedOutOfRange)
            },
        }
    }
}

/// The Todo that a faultless `item` stores.
pub open spec fn item_todo(item: ItemView) -> TodoView {
    TodoView {
        id: field_text(item, Field::Id),
        title: field_text(item, Field::Title),
        description: field_text(item, Field::Description),
        created: match text_value(field_text(item, Field::Created)) {
            Some(millis) => millis as int,
            None => 0,
        },
    }
}

/// What reading `item` as a Todo gives.
pub open spec fn decoded(item: ItemView) -> Result<TodoView, DataFault> {
    match item_fault(item) {
        Some(fault) => Err(fault),
        None => Ok(item_todo(item)),
    }
}

/// The fault of the first faulty item at or after position `from`, if there
/// is one.
pub open spec fn first_fault(items: Seq<ItemView>, from: int) -> Option<DataFault>
    decreases items.len() - from,
{
    if from < 0 || from >= items.len() {
        None
    } else if item_fault(items[from]) is Some {
        item_fault(items[from])
    } else {
        first_fault(items, from + 1)
    }
}

/// What reading a list of items as Todos gives: the Todos in the items'
/// order, or the fault of the first item that has one.
pub open spec fn decoded_list(items: Seq<ItemView>) -> Result<Seq<TodoView>, DataFault> {
    match first_fault(items, 0) {
        Some(fault) => Err(fault),
        None => Ok(Seq::new(items.len(), |i: int| item_todo(items[i]))),
    }
}

/// Faultless items before the first faulty one do not change which fault
/// comes first.
proof fn lemma_first_fault_skips(items: Seq<ItemView>, from: int, to: int)
    requires
        0 <= from <= to <= items.len(),
        forall|i: int| from <= i < to ==> item_fault(#[trigger] items[i]) is None,
    ensures
        first_fault(items, from) == first_fault(items, to),
    decreases to - from,
{
    if from < to {
        lemma_first_fault_skips(items, from + 1, to);
    }
}

/// The item that stores `todo`.
pub fn todo_item(todo: &Todo) -> (item: Item)
    ensures
        item@ == encoded(todo@),
{
    let mut item = Item::new();
    item.insert(String::from_str(attribute_name(Field::Id)), AttributeValue::S(todo.id.clone()));
    item.insert(
        String::from_str(attribute_name(Field::Title)),
        AttributeValue::S(todo.title.clone()),
    );
    item.insert(
        String::from_str(attribute_name(Field::Description)),
        AttributeValue::S(todo.description.clone()),
    );
    item.insert(
        String::from_str(attribute_name(Field::Created)),
        AttributeValue::N(format_i64(todo.created)),
    );
    item
}

/// The text under `field` of `item`, or what is wrong with the field.
fn field_of(item: &Item, field: Field) -> (r: Result<String, DataFault>)
    ensures
        match r {
            Ok(text) => field_fault(item@, field) is None && text@ == field_text(item@, field),
            Err(fault) => field_fault(item@, field) == Some(fault),
        },
{
    match item.get(attribute_name(field)) {
        None => Err(DataFault::MissingField(field)),
        Some(value) => {
            let text = match field {
                Field::Created => value.as_n(),
                _ => value.as_s(),
            };
            match text {
                Some(text) => Ok(text.clone()),
                None => Err(DataFault::WrongType(field)),
            }
        },
    }
}

/// Reads `data` as a Todo. An item that lacks a field, holds one of the
/// wrong kind, or whose creation time is no valid number, gives the fault.
pub fn todo_mapper(data: &Item) -> (r: Result<Todo, DataFault>)
    ensures
        match r {
            Ok(todo) => decoded(data@) == Ok::<TodoView, DataFault>(todo@) && todo.well_formed(),
            Err(fault) => decoded(data@) == Err::<TodoView, DataFault>(fault),
        },
{
    let id = match field_of(data, Field::Id) {
        Ok(text) => text,
        Err(fault) => {
            return Err(fault);
        },
    };
    let title = match field_of(data, Field::Title) {
        Ok(text) => text,
        Err(fault) => {
            return Err(fault);
        },
    };
    let description = match field_of(data, Field::Description) {
        Ok(text) => text,
        Err(fault) => {
            return Err(fault);
        },
    };
    let created_text = match field_of(data, Field::Created) {
        Ok(text) => text,
        Err(fault) => {
            return Err(fault);
        },
    };
    let created = match parse_i64(created_text.as_str()) {
        Some(millis) => millis,
        None => {
            return Err(DataFault::UnparsableCreated);
        },
    };
    if !datetime_exists(created) {
        return Err(DataFault::CreatedOutOfRange);
    }
    Ok(Todo { id, title, description, created })
}

/// Reads every item of `data` as a Todo, in order. The first faulty item
/// makes the whole reading fail with its fault: none is left out.
pub fn todo_list_mapper(data: &Vec<Item>) -> (r: Result<Vec<Todo>, DataFault>)
    ensures
        match r {
            Ok(todos) => decoded_list(item_views(data@)) == Ok::<Seq<TodoView>, DataFault>(
                todo_views(todos@),
            ),
            Err(fault) => decoded_list(item_views(data@)) == Err::<Seq<TodoView>, DataFault>(
                fault,
            ),
        },
{
    let ghost views = item_views(data@);
    let mut todos: Vec<Todo> = Vec::new();
    let mut i: usize = 0;
    while i < data.len()
        invariant
            i <= data.len(),
            todos.len() == i,
            views == item_views(data@),
            forall|j: int| 0 <= j < i ==> item_fault(#[trigger] views[j]) is None,
            forall|j: int| 0 <= j < i ==> (#[trigger] todos@[j])@ == item_todo(views[j]),
        decreases data.len() - i,
    {
        assert(views[i as int] == data@[i as int]@);
        match todo_mapper(&data[i]) {
            Ok(todo) => {
                todos.push(todo);
            },
            Err(fault) => {
                proof {
                    lemma_first_fault_skips(views, 0, i as int);
                }
                return Err(fault);
            },
        }
        i += 1;
    }
    proof {
        lemma_first_fault_skips(views, 0, i as int);
        assert(todo_views(todos@) =~= Seq::new(views.len(), |i: int| item_todo(views[i])));
    }
    Ok(todos)
}

/// Storing a Todo and reading the item back gives the same Todo, in all
/// four fields, provided that its creation time is one that a date-time can
/// represent.
pub proof fn lemma_encoding_round_trip(todo: Todo)
    requires
        todo.well_formed(),
    ensures
        decoded(encoded(todo@)) == Ok::<TodoView, DataFault>(todo@),
{
    lemma_field_names_differ();
    lemma_text_round_trip(todo.created);
    let item = encoded(todo@);
    assert(item[field_name(Field::Id)] == AttributeValueView::S(todo.id@));
    assert(item[field_name(Field::Title)] == AttributeValueView::S(todo.title@));
    assert(item[field_name(Field::Description)] == AttributeValueView::S(todo.description@));
    assert(item[field_name(Field::Created)] == AttributeValueView::N(
        int_text(todo.created as int),
    ));
}

/// The most rows that one listing reads.
pub const SCAN_LIMIT: i32 = 20;

/// The most rows that one lookup by key reads: one more than can rightly be
/// there, so that a second one shows.
pub const QUERY_LIMIT: i32 = 2;

/// The name of the table that holds the Todos.
pub fn table_name() -> (name: &'static str)
    ensures
        name@ == "TodoTable"@,
{
    "TodoTable"
}

/// A request to read rows from the start of a table.
#[derive(Debug)]
pub struct ScanRequest {
    pub table_name: String,
    pub limit: i32,
}

/// A request to read the rows with one key.
#[derive(Debug)]
pub struct QueryRequest {
    pub table_name: String,
    pub id: String,
    pub limit: i32,
}

/// A request to write an item under its key.
#[derive(Debug)]
pub struct PutItemRequest {
    pub table_name: String,
    pub item: Item,
}

/// A request to set the title and the description of the row with one key.
#[derive(Debug)]
pub struct UpdateItemRequest {
    pub table_name: String,
    pub id: String,
    pub title: String,
    pub description: String,
}

/// A request to remove the row with one key.
#[derive(Debug)]
pub struct DeleteItemRequest {
    pub table_name: String,
    pub id: String,
}

/// The item that holds the string `text` under `name` and nothing else.
pub open spec fn single(name: Seq<char>, text: Seq<char>) -> ItemView {
    Map::<Seq<char>, AttributeValueView>::empty().insert(name, AttributeValueView::S(text))
}

/// The attributes that an update sets: the title and the description.
pub open spec fn changes_of(title: Seq<char>, description: Seq<char>) -> ItemView {
    single(field_name(Field::Title), title).insert(
        field_name(Field::Description),
        AttributeValueView::S(description),
    )
}

/// The item with the one string attribute `name`.
fn single_item(name: &str, text: &String) -> (item: Item)
    ensures
        item@ == single(name@, text@),
{
    let mut item = Item::new();
    item.insert(String::from_str(name), AttributeValue::S(text.clone()));
    item
}

impl QueryRequest {
    /// The condition that selects the rows, with a placeholder for the key.
    pub fn key_condition_expression(&self) -> (text: &'static str)
        ensures
            text@ == "id = :id"@,
    {
        "id = :id"
    }

    /// What stands for the placeholder of the condition: the key.
    pub fn expression_attribute_values(&self) -> (values: Item)
        ensures
            values@ == single(":id"@, self.id@),
    {
        single_item(":id", &self.id)
    }
}

impl UpdateItemRequest {
    /// The key of the row.
    pub fn key(&self) -> (key: Item)
        ensures
            key@ == key_item(self.id@),
    {
        single_item("id", &self.id)
    }

    /// What is to be set, with placeholders for the two new texts.
    pub fn update_expression(&self) -> (text: &'static str)
        ensures
            text@ == "set title = :title, description = :description"@,
    {
        "set title = :title, description = :description"
    }

    /// What stands for the placeholders: the new title and description.
    pub fn expression_attribute_values(&self) -> (values: Item)
        ensures
            values@ == single(":title"@, self.title@).insert(
                ":description"@,
                AttributeValueView::S(self.description@),
            ),
    {
        let mut values = single_item(":title", &self.title);
        values.insert(String::from_str(":description"), AttributeValue::S(self.description.clone()));
        values
    }

    /// The attributes that the request sets, under their own names.
    pub fn changes(&self) -> (changes: Item)
        ensures
            changes@ == changes_of(self.title@, self.description@),
    {
        let mut changes = single_item(attribute_name(Field::Title), &self.title);
        changes.insert(
            String::from_str(attribute_name(Field::Description)),
            AttributeValue::S(self.description.clone()),
        );
        changes
    }
}

impl DeleteItemRequest {
    /// The key of the row.
    pub fn key(&self) -> (key: Item)
        ensures
            key@ == key_item(self.id@),
    {
        single_item("id", &self.id)
    }
}

/// The request that lists the Todos: at most twenty rows of the Todo table.
pub fn scan_request() -> (request: ScanRequest)
    ensures
        request.table_name@ == "TodoTable"@,
        request.limit == SCAN_LIMIT,
{
    ScanRequest { table_name: String::from_str(table_name()), limit: SCAN_LIMIT }
}

/// The request that looks up the Todo with the key `id`.
pub fn query_request(id: &str) -> (request: QueryRequest)
    ensures
        request.table_name@ == "TodoTable"@,
        request.id@ == id@,
        request.limit == QUERY_LIMIT,
{
    QueryRequest {
        table_name: String::from_str(table_name()),
        id: String::from_str(id),
        limit: QUERY_LIMIT,
    }
}

/// The request that stores `todo`, all four fields of it.
pub fn put_request(todo: &Todo) -> (request: PutItemRequest)
    ensures
        request.table_name@ == "TodoTable"@,
        request.item@ == encoded(todo@),
{
    PutItemRequest { table_name: String::from_str(table_name()), item: todo_item(todo) }
}

/// The request that sets the title and the description of the row with
/// `todo`'s key to those of `todo`. The creation time is not part of it.
pub fn update_request(todo: &Todo) -> (request: UpdateItemRequest)
    ensures
        request.table_name@ == "TodoTable"@,
        request.id@ == todo.id@,
        request.title@ == todo.title@,
        request.description@ == todo.description@,
{
    UpdateItemRequest {
        table_name: String::from_str(table_name()),
        id: todo.id.clone(),
        title: todo.title.clone(),
        description: todo.description.clone(),
    }
}

/// The request that removes the Todo with the key `id`.
pub fn delete_request(id: &str) -> (request: DeleteItemRequest)
    ensures
        request.table_name@ == "TodoTable"@,
        request.id@ == id@,
{
    DeleteItemRequest { table_name: String::from_str(table_name()), id: String::from_str(id) }
}

/// What a lookup makes of the rows that it read: no Todo where there is no
/// row, the Todo of the one row, and a fault where there is more than one
/// row or a row is faulty.
pub open spec fn selected(items: Seq<ItemView>) -> Result<Option<TodoView>, DataFault> {
    match decoded_list(items) {
        Err(fault) => Err(fault),
        Ok(todos) => if todos.len() > 1 {
            Err(DataFault::DuplicateKey)
        } else if todos.len() == 1 {
            Ok(Some(todos[0]))
        } else {
            Ok(None)
        },
    }
}

/// What a listing gives for the store's answer: the store's failure, or the
/// reading of the rows.
pub open spec fn listing_of(answer: Result<Seq<ItemView>, Seq<char>>) -> Result<
    Seq<TodoView>,
    ErrorView,
> {
    match answer {
        Err(text) => Err(ErrorView::Store(text)),
        Ok(items) => match decoded_list(items) {
            Err(fault) => Err(ErrorView::Data(fault)),
            Ok(todos) => Ok(todos),
        },
    }
}

/// What a lookup gives for the store's answer.
pub open spec fn lookup_of(answer: Result<Seq<ItemView>, Seq<char>>) -> Result<
    Option<TodoView>,
    ErrorView,
> {
    match answer {
        Err(text) => Err(ErrorView::Store(text)),
        Ok(items) => match selected(items) {
            Err(fault) => Err(ErrorView::Data(fault)),
            Ok(found) => Ok(found),
        },
    }
}

/// The store's answer to a read, as a mathematical value.
pub open spec fn answer_view(answer: Result<Vec<Item>, String>) -> Result<
    Seq<ItemView>,
    Seq<char>,
> {
    match answer {
        Ok(items) => Ok(item_views(items@)),
        Err(text) => Err(text@),
    }
}

/// The result of a listing, as a mathematical value.
pub open spec fn listing_view(r: Result<Vec<Todo>, Error>) -> Result<Seq<TodoView>, ErrorView> {
    match r {
        Ok(todos) => Ok(todo_views(todos@)),
        Err(error) => Err(error@),
    }
}

/// The result of a lookup, as a mathematical value.
pub open spec fn lookup_view(r: Result<Option<Todo>, Error>) -> Result<
    Option<TodoView>,
    ErrorView,
> {
    match r {
        Ok(Some(todo)) => Ok(Some(todo@)),
        Ok(None) => Ok(None),
        Err(error) => Err(error@),
    }
}

/// The result of a write, as a mathematical value.
pub open spec fn write_view(r: Result<(), Error>) -> Result<(), ErrorView> {
    match r {
        Ok(done) => Ok(done),
        Err(error) => Err(error@),
    }
}

/// Makes the result of a listing of the store's answer to the scan.
pub fn listed(answer: Result<Vec<Item>, String>) -> (r: Result<Vec<Todo>, Error>)
    ensures
        listing_view(r) == listing_of(answer_view(answer)),
{
    match answer {
        Err(text) => Err(Error::Store(text)),
        Ok(items) => match todo_list_mapper(&items) {
            Ok(todos) => Ok(todos),
            Err(fault) => Err(Error::Data(fault)),
        },
    }
}

/// Makes the result of a lookup of the store's answer to the query. More
/// than one row under the key is a fault: none of them is picked.
pub fn looked_up(answer: Result<Vec<Item>, String>) -> (r: Result<Option<Todo>, Error>)
    ensures
        lookup_view(r) == lookup_of(answer_view(answer)),
{
    match answer {
        Err(text) => Err(Error::Store(text)),
        Ok(items) => match todo_list_mapper(&items) {
            Err(fault) => Err(Error::Data(fault)),
            Ok(mut todos) => {
                if todos.len() > 1 {
                    Err(Error::Data(DataFault::DuplicateKey))
                } else {
                    match todos.pop() {
                        Some(todo) => Ok(Some(todo)),
                        None => Ok(None),
                    }
                }
            },
        },
    }
}

/// Makes the result of a write of the store's answer to it.
pub fn written(answer: Result<(), String>) -> (r: Result<(), Error>)
    ensures
        match answer {
            Ok(_) => r is Ok,
            Err(text) => write_view(r) == Err::<(), ErrorView>(ErrorView::Store(text@)),
        },
{
    match answer {
        Ok(_) => Ok(()),
        Err(text) => Err(Error::Store(text)),
    }
}

/// What listing the Todos of a table with the rows `rows` gives.
pub open spec fn all_of(rows: Seq<ItemView>) -> Result<Seq<TodoView>, ErrorView> {
    listing_of(Ok(rows_scanned(rows, SCAN_LIMIT as int)))
}

/// What looking up the key `id` in a table with the rows `rows` gives.
pub open spec fn todo_of(rows: Seq<ItemView>, id: Seq<char>) -> Result<Option<TodoView>, ErrorView> {
    lookup_of(Ok(rows_queried(rows, id, QUERY_LIMIT as int)))
}

/// Lists the Todos of `table`, in the table's order: the first twenty rows
/// at most. An empty table gives an empty list.
pub fn get_all(table: &Table) -> (r: Result<Vec<Todo>, Error>)
    ensures
        listing_view(r) == all_of(table.rows()),
{
    let request = scan_request();
    listed(Ok(table.scan(request.limit)))
}

/// Looks up the Todo with the key `id`.
pub fn get_todo(table: &Table, id: &str) -> (r: Result<Option<Todo>, Error>)
    requires
        table.well_formed(),
    ensures
        lookup_view(r) == todo_of(table.rows(), id@),
{
    let request = query_request(id);
    looked_up(Ok(table.query(request.id.as_str(), request.limit)))
}

/// Stores `todo` under its key, in place of whatever was stored there.
pub fn insert_todo(table: &mut Table, todo: Todo) -> (r: Result<(), Error>)
    requires
        old(table).well_formed(),
    ensures
        r is Ok,
        final(table).well_formed(),
        final(table).rows() == rows_after_put(old(table).rows(), encoded(todo@)),
{
    let request = put_request(&todo);
    proof {
        lemma_field_names_differ();
        assert(key_of(encoded(todo@)) == Some(todo.id@));
    }
    written(table.put_item(request.item))
}

/// Sets the title and the description of the row with `todo`'s key to those
/// of `todo`; the key and the creation time stay as they are stored. Where
/// no row has that key, a row is made of the key, the title and the
/// description alone, which no later reading accepts as a Todo.
pub fn update_todo(table: &mut Table, todo: Todo) -> (r: Result<(), Error>)
    requires
        old(table).well_formed(),
    ensures
        r is Ok,
        final(table).well_formed(),
        final(table).rows() == rows_after_update(
            old(table).rows(),
            todo.id@,
            changes_of(todo.title@, todo.description@),
        ),
{
    let request = update_request(&todo);
    let changes = request.changes();
    proof {
        lemma_field_names_differ();
        assert(key_name() == field_name(Field::Id));
        assert(field_name(Field::Title) != field_name(Field::Id));
        assert(field_name(Field::Description) != field_name(Field::Id));
        assert(!changes@.contains_key(key_name()));
    }
    written(table.update_item(request.id.as_str(), &changes))
}

/// Removes the Todo with the key `id`. Where there is none, nothing changes
/// and the call succeeds all the same.
pub fn delete_todo(table: &mut Table, id: &str) -> (r: Result<(), Error>)
    requires
        old(table).well_formed(),
    ensures
        r is Ok,
        final(table).well_formed(),
        final(table).rows() == rows_after_delete(old(table).rows(), id@),
{
    let request = delete_request(id);
    table.delete_item(request.id.as_str());
    written(Ok(()))
}

/// Reading a single faultless row gives its Todo.
proof fn lemma_lookup_single(item: ItemView)
    ensures
        lookup_of(Ok(seq![item])) == match item_fault(item) {
            Some(fault) => Err::<Option<TodoView>, ErrorView>(ErrorView::Data(fault)),
            None => Ok::<Option<TodoView>, ErrorView>(Some(item_todo(item))),
        },
{
    let items = seq![item];
    assert(items[0] == item);
    assert(first_fault(items, 1) is None);
}

/// After a Todo was inserted, looking up its key gives that Todo, equal in
/// all four fields.
pub proof fn law_insert_then_get(rows: Seq<ItemView>, todo: Todo)
    requires
        rows_well_formed(rows),
        todo.well_formed(),
    ensures
        todo_of(rows_after_put(rows, encoded(todo@)), todo.id@) == Ok::<
            Option<TodoView>,
            ErrorView,
        >(Some(todo@)),
{
    let item = encoded(todo@);
    lemma_field_names_differ();
    assert(key_of(item) == Some(todo.id@));
    lemma_put(rows, item);
    lemma_encoding_round_trip(todo);
    lemma_lookup_single(item);
}

/// Inserting a Todo under a key that no row has adds one row and leaves the
/// others as they are: nothing is merged.
pub proof fn law_insert_fresh_key_adds_row(rows: Seq<ItemView>, todo: Todo)
    requires
        rows_well_formed(rows),
        !has_key(rows, todo.id@),
    ensures
        rows_after_put(rows, encoded(todo@)) == rows.push(encoded(todo@)),
{
    lemma_field_names_differ();
    assert(key_of(encoded(todo@)) == Some(todo.id@));
}

/// Inserting a Todo leaves what is found under every other key as it was.
pub proof fn law_insert_keeps_other_todos(rows: Seq<ItemView>, todo: Todo, other: Seq<char>)
    requires
        rows_well_formed(rows),
        other != todo.id@,
    ensures
        todo_of(rows_after_put(rows, encoded(todo@)), other) == todo_of(rows, other),
{
    lemma_field_names_differ();
    assert(key_of(encoded(todo@)) == Some(todo.id@));
    lemma_put(rows, encoded(todo@));
}

/// Deleting a key a second time changes nothing more.
pub proof fn law_delete_twice(rows: Seq<ItemView>, id: Seq<char>)
    requires
        rows_well_formed(rows),
    ensures
        rows_well_formed(rows_after_delete(rows, id)),
        rows_after_delete(rows_after_delete(rows, id), id) == rows_after_delete(rows, id),
        todo_of(rows_after_delete(rows, id), id) == Ok::<Option<TodoView>, ErrorView>(None),
{
    lemma_delete(rows, id);
    let after = rows_after_delete(rows, id);
    assert(rows_queried(after, id, QUERY_LIMIT as int) =~= Seq::<ItemView>::empty());
    assert(first_fault(Seq::<ItemView>::empty(), 0) is None);
    assert(Seq::new(0, |i: int| item_todo(Seq::<ItemView>::empty()[i])).len() == 0);
}

/// After an update of a stored Todo, looking up its key gives the new title
/// and description with the key and the creation time that were stored.
pub proof fn law_update_narrowing(rows: Seq<ItemView>, stored: TodoView, todo: Todo)
    requires
        rows_well_formed(rows),
        todo_of(rows, todo.id@) == Ok::<Option<TodoView>, ErrorView>(Some(stored)),
    ensures
        stored.id == todo.id@,
        todo_of(
            rows_after_update(rows, todo.id@, changes_of(todo.title@, todo.description@)),
            todo.id@,
        ) == Ok::<Option<TodoView>, ErrorView>(
            Some(
                TodoView {
                    id: stored.id,
                    title: todo.title@,
                    description: todo.description@,
                    created: stored.created,
                },
            ),
        ),
{
    let id = todo.id@;
    let changes = changes_of(todo.title@, todo.description@);
    lemma_field_names_differ();
    let found = rows_queried(rows, id, QUERY_LIMIT as int);
    if found.len() == 0 {
        assert(first_fault(found, 0) is None);
        assert(Seq::new(found.len(), |i: int| item_todo(found[i])).len() == 0);
        assert(false);
    }
    assert(has_key(rows, id));
    let row = rows[index_of(rows, id)];
    assert(found =~= seq![row]);
    lemma_lookup_single(row);
    assert(!changes.contains_key(key_name()));
    lemma_update(rows, id, changes);
    let after = rows_after_update(rows, id, changes);
    let changed = row.union_prefer_right(changes);
    assert(rows_queried(after, id, QUERY_LIMIT as int) =~= seq![changed]);
    lemma_lookup_single(changed);
    assert(changed[field_name(Field::Id)] == row[field_name(Field::Id)]);
    assert(changed[field_name(Field::Created)] == row[field_name(Field::Created)]);
    assert(changed[field_name(Field::Title)] == AttributeValueView::S(todo.title@));
    assert(changed[field_name(Field::Description)] == AttributeValueView::S(todo.description@));
}

/// Listing an empty table gives an empty list, not a failure.
pub proof fn law_empty_table_lists_nothing()
    ensures
        all_of(Seq::<ItemView>::empty()) == Ok::<Seq<TodoView>, ErrorView>(
            Seq::<TodoView>::empty(),
        ),
{
    let rows = Seq::<ItemView>::empty();
    let read = rows_scanned(rows, SCAN_LIMIT as int);
    assert(read =~= rows);
    assert(first_fault(read, 0) is None);
    assert(Seq::new(read.len(), |i: int| item_todo(read[i])) =~= Seq::<TodoView>::empty());
}

/// A lookup that finds more than one row under its key fails: it never
/// picks one of them.
pub proof fn law_duplicate_key_is_a_fault(items: Seq<ItemView>)
    requires
        items.len() > 1,
    ensures
        selected(items) is Err,
        decoded_list(items) is Ok ==> selected(items) == Err::<Option<TodoView>, DataFault>(
            DataFault::DuplicateKey,
        ),
        lookup_of(Ok(items)) is Err,
{
}

} // verus!
