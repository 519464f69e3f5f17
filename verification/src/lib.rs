pub mod collector;
pub mod config;
pub mod database;
pub mod distributed;
pub mod executors;
pub mod ingest;
pub mod paths;
pub mod sync;
