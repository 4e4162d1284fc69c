//! Statistics-driven browser prediction: the history store, its schema
//! migrations, the ranking of installed browsers for a URL, and the
//! bookkeeping of the background worker that runs these operations.

pub mod clock;
pub mod conf;
pub mod entities;
pub mod error;
pub mod migrations;
pub mod predict;
pub mod ranking;
pub mod shared;
pub mod statistics;
pub mod statistics_repository;
pub mod store;
pub mod text;
pub mod thread_worker;
pub mod tld;
