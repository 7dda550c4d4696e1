//! The way to the store: where it is, what is asked of it, and how its
//! answers are read.

pub mod dynamo_connection;
pub mod table;
pub mod todo_repository;
