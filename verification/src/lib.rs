//! Clipboard history for the herdr terminal multiplexer: the history store, the
//! picker, the watcher and the socket protocol, without their I/O.

pub mod cli;
pub mod config;
pub mod decimal;
pub mod filter;
pub mod herdr;
pub mod history;
pub mod history_laws;
pub mod image_laws;
pub mod img;
pub mod json;
pub mod label;
pub mod legacy;
pub mod legacy_laws;
pub mod listing_laws;
pub mod paste;
pub mod paths;
pub mod picker;
pub mod picker_laws;
pub mod program_laws;
pub mod protocol_laws;
pub mod restore;
pub mod screen;
pub mod session;
pub mod size;
pub mod sqlite;
pub mod store_laws;
pub mod table;
pub mod text;
pub mod text_laws;
pub mod watcher;
