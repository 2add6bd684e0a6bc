//! The state and decisions of the application's views: the table of files
//! to correct, and the settings where lens rules are edited.

pub mod files;
pub mod settings;
