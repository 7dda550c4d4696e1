//! The Todo record and the faults that reading and writing it can meet.

use vstd::prelude::*;

verus! {

/// Earliest creation time that a Todo can hold, in milliseconds since the
/// epoch: the first instant of the year -262143.
pub const MIN_CREATED_MILLIS: i64 = -8_334_601_228_800_000;

/// Latest creation time that a Todo can hold, in milliseconds since the
/// epoch: the last millisecond of the year 262142.
pub const MAX_CREATED_MILLIS: i64 = 8_210_266_876_799_999;

/// Whether `millis` is a creation time that a date-time can represent.
pub open spec fn created_in_range(millis: int) -> bool {
    MIN_CREATED_MILLIS <= millis <= MAX_CREATED_MILLIS
}

/// Whether a UTC date-time exists for `millis` milliseconds since the epoch.
///
/// Calls `chrono::DateTime::from_timestamp_millis`, which gives a date-time
/// for every instant from the first millisecond of the year -262143 to the
/// last one of the year 262142, and `None` outside. The contract states that
/// interval by its two ends; it is taken on trust, not proved here.
#[verifier::external_body]
pub(crate) fn datetime_exists(millis: i64) -> (exists: bool)
    ensures
        exists == created_in_range(millis as int),
{
    chrono::DateTime::from_timestamp_millis(millis).is_some()
}

/// One entry of the list.
#[derive(Debug)]
pub struct Todo {
    /// The key under which the store keeps the entry.
    pub id: String,
    pub title: String,
    pub description: String,
    /// The creation time, in milliseconds since the epoch.
    pub created: i64,
}

/// A Todo as a mathematical value.
pub struct TodoView {
    pub id: Seq<char>,
    pub title: Seq<char>,
    pub description: Seq<char>,
    pub created: int,
}

impl View for Todo {
    type V = TodoView;

    open spec fn view(&self) -> TodoView {
        TodoView {
            id: self.id@,
            title: self.title@,
            description: self.description@,
            created: self.created as int,
        }
    }
}

impl Clone for Todo {
    fn clone(&self) -> (copy: Self)
        ensures
            copy == *self,
    {
        Todo {
            id: self.id.clone(),
            title: self.title.clone(),
            description: self.description.clone(),
            created: self.created,
        }
    }
}

impl Todo {
    /// Whether the creation time is one that a date-time can represent.
    pub open spec fn well_formed(&self) -> bool {
        created_in_range(self.created as int)
    }

    /// Whether the creation time is one that a date-time can represent.
    pub fn is_well_formed(&self) -> (ok: bool)
        ensures
            ok == self.well_formed(),
    {
        datetime_exists(self.created)
    }
}

/// The views of a list of Todos, in order.
pub open spec fn todo_views(todos: Seq<Todo>) -> Seq<TodoView> {
    Seq::new(todos.len(), |i: int| todos[i]@)
}

/// The four fields of a stored Todo.
#[derive(Clone, Copy, Debug, PartialEq, Eq, Structural)]
pub enum Field {
    Id,
    Title,
    Description,
    Created,
}

/// The attribute name under which a field is stored.
pub open spec fn field_name(field: Field) -> Seq<char> {
    match field {
        Field::Id => "id"@,
        Field::Title => "title"@,
        Field::Description => "description"@,
        Field::Created => "created"@,
    }
}

/// The four attribute names differ from one another.
pub proof fn lemma_field_names_differ()
    ensures
        forall|a: Field, b: Field| a != b ==> field_name(a) != field_name(b),
{
    reveal_strlit("id");
    reveal_strlit("title");
    reveal_strlit("description");
    reveal_strlit("created");
    assert forall|a: Field, b: Field| a != b implies field_name(a) != field_name(b) by {
        assert(field_name(Field::Id).len() == 2);
        assert(field_name(Field::Title).len() == 5);
        assert(field_name(Field::Description).len() == 11);
        assert(field_name(Field::Created).len() == 7);
    }
}

/// The attribute name of `field`.
pub fn attribute_name(field: Field) -> (name: &'static str)
    ensures
        name@ == field_name(field),
{
    match field {
        Field::Id => "id",
        Field::Title => "title",
        Field::Description => "description",
        Field::Created => "created",
    }
}

/// What can be wrong with stored data. None of these can be recovered from:
/// the operation that meets one is abandoned as a whole.
#[derive(Clone, Copy, Debug, PartialEq, Eq, Structural)]
pub enum DataFault {
    /// An item lacks a field.
    MissingField(Field),
    /// A field holds a value of the wrong kind.
    WrongType(Field),
    /// The creation time is not the decimal text of a 64-bit integer.
    UnparsableCreated,
    /// The creation time is a number that no date-time represents.
    CreatedOutOfRange,
    /// A lookup by key found more than one item.
    DuplicateKey,
}

/// Why a repository operation failed.
#[derive(Debug)]
pub enum Error {
    /// The store or the way to it failed; the text is the failure's own.
    Store(String),
    /// The store answered with data that breaks the rules of the table.
    Data(DataFault),
}

/// A repository failure as a mathematical value.
pub enum ErrorView {
    Store(Seq<char>),
    Data(DataFault),
}

impl View for Error {
    type V = ErrorView;

    open spec fn view(&self) -> ErrorView {
        match self {
            Error::Store(text) => ErrorView::Store(text@),
            Error::Data(fault) => ErrorView::Data(*fault),
        }
    }
}

/// The text that tells of a fault.
pub open spec fn fault_text(fault: DataFault) -> Seq<char> {
    match fault {
        DataFault::MissingField(field) => "missing field: "@ + field_name(field),
        DataFault::WrongType(field) => "field of the wrong type: "@ + field_name(field),
        DataFault::UnparsableCreated => "unparsable DATE/TIME"@,
        DataFault::CreatedOutOfRange => "DATE/TIME out of range"@,
        DataFault::DuplicateKey => "More than one item found"@,
    }
}

/// The text that tells of a failure: the store's own words, or those for the
/// fault in the data.
pub open spec fn error_text(error: ErrorView) -> Seq<char> {
    match error {
        ErrorView::Store(text) => text,
        ErrorView::Data(fault) => fault_text(fault),
    }
}

impl DataFault {
    /// The text that tells of this fault.
    pub fn message(&self) -> (text: String)
        ensures
            text@ == fault_text(*self),
    {
        match self {
            DataFault::MissingField(field) => String::from_str("missing field: ").concat(
                attribute_name(*field),
            ),
            DataFault::WrongType(field) => String::from_str("field of the wrong type: ").concat(
                attribute_name(*field),
            ),
            DataFault::UnparsableCreated => String::from_str("unparsable DATE/TIME"),
            DataFault::CreatedOutOfRange => String::from_str("DATE/TIME out of range"),
            DataFault::DuplicateKey => String::from_str("More than one item found"),
        }
    }
}

impl Error {
    /// The text that tells of this failure.
    pub fn message(&self) -> (text: String)
        ensures
            text@ == error_text(self@),
    {
        match self {
            Error::Store(text) => text.clone(),
            Error::Data(fault) => fault.message(),
        }
    }
}

} // verus!
