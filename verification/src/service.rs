//! What callers on the other side of the wire can ask for.

pub mod todo_service;
