//! Edition engine for railway infrastructures: a cache of the objects that
//! reference track sections, the operations that edit them, and the cascade
//! that splits a track section in two.
//!
//! Every distance and position is an integer number of millimetres.
pub mod schema;
pub mod object_cache;
pub mod error;
pub mod infra_cache;
pub mod operation;
pub mod split;
pub mod track_split;
mod identifier;
pub mod edition;
pub mod projects;
pub mod rolling_stock;
pub mod timetable;
