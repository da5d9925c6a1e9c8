pub mod cache;
pub mod format;
pub mod markdown;
pub mod text;
