//! Search, paging and formatting logic of the book reviews web application.
pub mod text;
pub mod query;
pub mod models;
pub mod error;
pub mod pagination;
pub mod laws;
