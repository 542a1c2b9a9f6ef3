//! Copies the pages of a Notion database into the tables of an SQLite file.
//!
//! The library reads the documents that the source answers with and writes the
//! statements that the store is to run; it sends nothing and runs nothing itself.
//! `notion_database` reads the schema of a database, `notion_pages` reads its
//! pages by that schema, `notion_client` decides which request for pages is due,
//! and `sqlite` writes the statements that create the tables and store a page.
//! `json_util` finds a value inside a document, and `json_value` says what is
//! taken on trust of the documents themselves.

pub mod error;
pub mod json_util;
pub mod json_value;
pub mod name_map;
pub mod notion_client;
pub mod notion_database;
pub mod notion_pages;
pub mod sqlite;
pub mod text;
