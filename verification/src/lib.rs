//! Verified core of a second-hand laptop diagnostic: report parsers,
//! consistency checks and the known-models lookup.

pub mod text;
pub mod display;
pub mod battery;
pub mod json;
pub mod storage;
pub mod scoring;
pub mod models_db;
pub mod hardware;
pub mod integrity;
