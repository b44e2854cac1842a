//! What the command line computes before it prints: escaped and unstyled
//! text, sizes and ages in words, status cells, and table layout.

pub mod text;
pub mod size;
pub mod table;
pub mod status;
pub mod lines;
pub mod redact;
pub mod listing;
