pub mod control;
pub mod info;
pub mod query;
pub mod reader;
pub mod spawn;
pub mod stop;
pub mod writer;
