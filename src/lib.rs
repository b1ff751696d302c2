//! Ingestion of hourly air-quality series: the row and column forms of a
//! batch, the backfill window planner, the most-recent-sample filter and the
//! shape of the bulk insert, with their contracts proved by Verus.
pub mod calendar;
pub mod config;
pub mod ieee;
pub mod model;
pub mod persist;
pub mod recency;
