pub mod error;
pub mod flags;
pub mod host;
pub mod json;
pub mod text;
pub mod types;
pub mod util;
pub mod parsing;
pub mod pattern;
pub mod plugin;
pub mod response;
pub mod table;
