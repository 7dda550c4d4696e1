//! The four remote operations. Each hands on what the repository gives, and
//! turns a failure into the one kind of error that crosses the wire: its text.

use vstd::prelude::*;
use crate::model::{error_text, todo_views, Error, ErrorView, Todo, TodoView};
use crate::repository::table::{rows_after_delete, rows_after_put, rows_after_update, Table};
use crate::repository::todo_repository::{
    all_of, changes_of, delete_todo as repository_delete_todo, encoded, get_all,
    insert_todo as repository_insert_todo, update_todo,
};

verus! {

/// The error that a remote caller sees. It carries the text of the failure
/// and nothing else of it.
#[derive(Debug)]
pub enum ServerFnError {
    ServerError(String),
}

impl ServerFnError {
    /// The text that the error carries.
    pub open spec fn text(&self) -> Seq<char> {
        match self {
            ServerFnError::ServerError(text) => text@,
        }
    }

    /// The text that the error carries.
    pub fn message(&self) -> (text: &String)
        ensures
            text@ == self.text(),
    {
        match self {
            ServerFnError::ServerError(text) => text,
        }
    }
}

/// What a remote caller gets for a repository result: the value, or the
/// text of the failure.
pub open spec fn remote<T>(r: Result<T, ErrorView>) -> Result<T, Seq<char>> {
    match r {
        Ok(value) => Ok(value),
        Err(error) => Err(error_text(error)),
    }
}

/// The error that stands for `error` on the wire.
pub fn server_error(error: &Error) -> (wrapped: ServerFnError)
    ensures
        wrapped.text() == error_text(error@),
{
    ServerFnError::ServerError(error.message())
}

/// Hands on a repository result to a remote caller.
pub fn respond<T>(r: Result<T, Error>) -> (out: Result<T, ServerFnError>)
    ensures
        match r {
            Ok(value) => out == Ok::<T, ServerFnError>(value),
            Err(error) => out is Err && out->Err_0.text() == error_text(error@),
        },
{
    match r {
        Ok(value) => Ok(value),
        Err(error) => Err(server_error(&error)),
    }
}

/// Lists the Todos.
pub fn get_todos(table: &Table) -> (r: Result<Vec<Todo>, ServerFnError>)
    ensures
        match r {
            Ok(todos) => remote(all_of(table.rows())) == Ok::<Seq<TodoView>, Seq<char>>(
                todo_views(todos@),
            ),
            Err(error) => remote(all_of(table.rows())) == Err::<Seq<TodoView>, Seq<char>>(
                error.text(),
            ),
        },
{
    respond(get_all(table))
}

/// Removes the Todo with the key `id`.
pub fn delete_todo(table: &mut Table, id: String) -> (r: Result<(), ServerFnError>)
    requires
        old(table).well_formed(),
    ensures
        r is Ok,
        final(table).well_formed(),
        final(table).rows() == rows_after_delete(old(table).rows(), id@),
{
    respond(repository_delete_todo(table, id.as_str()))
}

/// Sets the title and the description of a stored Todo.
pub fn edit_todo(table: &mut Table, todo: Todo) -> (r: Result<(), ServerFnError>)
    requires
        old(table).well_formed(),
    ensures
        r is Ok,
        final(table).well_formed(),
        final(table).rows() == rows_after_update(
            old(table).rows(),
            todo.id@,
            changes_of(todo.title@, todo.description@),
        ),
{
    respond(update_todo(table, todo))
}

/// Stores a Todo.
pub fn insert_todo(table: &mut Table, todo: Todo) -> (r: Result<(), ServerFnError>)
    requires
        old(table).well_formed(),
    ensures
        r is Ok,
        final(table).well_formed(),
        final(table).rows() == rows_after_put(old(table).rows(), encoded(todo@)),
{
    respond(repository_insert_todo(table, todo))
}

} // verus!
