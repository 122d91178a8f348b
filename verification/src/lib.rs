//! A small client library for Google Sheets: column letters, A1-notation
//! ranges, and the request settings that readers, writers and deleters of a
//! sheet carry.
pub mod text;
pub mod column;
pub mod gsc;
pub mod google_sheets_connector;
