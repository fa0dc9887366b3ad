//! A safe replacement for permanent deletion: files and directories are moved
//! into a managed trash area, tracked in a metadata store, and can later be
//! listed, restored, checked for expiry, or purged.
//!
//! The crate holds the decision logic only. Every operation that touches the
//! file system is expressed as a small protocol: the library names the next
//! file-system action, the caller performs it and reports what happened.
//!
//! - `paths`: which paths may be deleted, and how trashed items are named.
//! - `clock`, `expiry`: instants, retention and remaining time.
//! - `meta`, `store`, `persist`: the records, the store, loading and saving.
//! - `delete`, `restore`, `clean`: the operations that change the trash.
//! - `report`: the listing and the expiry check.
//! - `tree`: the copy of a directory tree, step by step.
//! - `disk`: the file-system actions and a model of what they do.
//! - `command`: the commands of the tool and the course of a run.
//! - `laws`, `tree_laws`: what is proved of the operations together.

pub mod clean;
pub mod clock;
pub mod command;
pub mod delete;
pub mod disk;
pub mod error;
pub mod expiry;
pub mod laws;
pub mod meta;
pub mod paths;
pub mod persist;
pub mod report;
pub mod restore;
pub mod store;
pub mod text;
pub mod tree;
pub mod tree_laws;

pub use command::Commands;
pub use error::TrashError;
pub use meta::FileMeta;
pub use store::Store;
