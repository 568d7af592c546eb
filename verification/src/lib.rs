pub mod text;
pub mod pathname;
pub mod path_index;
pub mod metadata;
pub mod scanner;
pub mod calendar;
pub mod images;
pub mod thumbnail;
pub mod library;
