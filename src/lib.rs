//! A directory lister's formatting core: permission strings, the extension
//! style table, the column grid and the detailed per-entry report.

pub mod permissions;
pub mod text;
pub mod order;
pub mod style;
pub mod record;
pub mod grid;
pub mod long;
pub mod listing;
