pub mod app;
pub mod date;
pub mod storage;
pub mod tags;
pub mod task;
pub mod text;
pub mod types;
