//! The logic of an RSS reader: its stored records, its feed list and entry
//! models, the rules of its dialogs and settings, and the database work that
//! each user action asks for.
pub mod config;
pub mod db;
pub mod logic;
pub mod util;
