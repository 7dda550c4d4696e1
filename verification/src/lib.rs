//! Core of a small TODO list service: the record, its encoding as store
//! items, the repository rules, the service boundary and the page state.

pub mod component;
pub mod decimal;
pub mod item;
pub mod model;
pub mod repository;
pub mod service;
