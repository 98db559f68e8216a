//! The MySQL side of parameter binding.
pub mod arguments;
pub mod database;
pub mod null_bitmap;
pub mod type_info;
pub mod types;
pub mod wire;

pub use arguments::MySqlArguments;
pub use database::MySql;
pub use type_info::MySqlTypeInfo;
