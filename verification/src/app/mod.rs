//! The use cases of grove, as the decisions they take over what Git, the file
//! system and zoxide report, and the reports they produce.

pub mod entry;
pub mod events;
pub mod inspection;
pub mod sync;
pub mod refresh;
pub mod status;
pub mod add;
pub mod api;
pub mod clone;
pub mod context;
pub mod init;
pub mod list;
pub mod validate;
