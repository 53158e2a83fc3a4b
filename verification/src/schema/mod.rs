//! Database schema model.

pub mod app;
pub mod db;
