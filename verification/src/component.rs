//! The page: what it holds, what it shows, and what each event does to it.

pub mod main_page;
