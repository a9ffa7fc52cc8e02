//! Keeps an in-memory value synchronized with a set of files on disk.
//!
//! A watch observes the directories containing a set of files, reloads a
//! value through a caller-supplied loader whenever one of the files
//! changes, and publishes each successfully loaded value for lock-free
//! concurrent reads.

mod builder;
mod context;
mod error;
mod file_watcher;
mod loader;
mod loaders;
mod outside;
mod pipeline;
mod types;
mod value_cell;

pub use builder::initial_value;
pub use builder::Builder;
pub use builder::Prepared;
pub use context::Context;
pub use error::Error;
pub use file_watcher::canonicalize;
pub use file_watcher::file_name;
pub use file_watcher::folders;
pub use file_watcher::join;
pub use file_watcher::matching_by_canon;
pub use file_watcher::matching_files;
pub use file_watcher::parent;
pub use file_watcher::ChangeHandler;
pub use file_watcher::FileWatcher;
pub use loader::Loaded;
pub use loaders::json_parse;
pub use loaders::FileContent;
pub use loaders::JsonLoader;
pub use pipeline::ReloadOutcome;
pub use pipeline::ReloadPipeline;
pub use types::DefaultErrorHandler;
pub use types::DefaultLoader;
pub use types::DefaultUpdatedHandler;
pub use types::ErrorHandler;
pub use types::Loader;
pub use types::UpdatedHandler;
pub use value_cell::Guard;
pub use value_cell::ValueCell;
