//! Glossa: the data model, catalog, library state, importer bookkeeping and
//! application state machine of an offline multi-edition dictionary.
//!
//! Everything here is plain logic over plain values. Reading and writing
//! files, SQLite, HTTP, gzip, JSON and the GUI live in the `app` crate, which
//! performs the effects that the state machines here ask for.
pub mod text;
pub mod catalog;
pub mod entry;
pub mod library;
pub mod db;
pub mod importer;
pub mod search;
pub mod state;
pub mod palette;
pub mod pages;
pub mod paths;
