//! Built-in loaders.

mod json;

pub use json::json_parse;
pub use json::FileContent;
pub use json::JsonLoader;
