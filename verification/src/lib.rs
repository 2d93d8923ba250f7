pub mod class_file;
pub mod class_parse;
pub mod constant_pool;
pub mod reader;
