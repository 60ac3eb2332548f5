pub mod command;
pub mod errors;
pub mod files;
pub mod parsers;
pub mod request;
pub mod response;
pub mod text;
pub mod unsafe_utils;
pub mod url;

pub use errors::AppError;
pub use files::{get_extension, get_extension_defined};
pub use parsers::{count_map, count_strings};
pub use request::{clean_url, trim_trailing_slash};
