//! Telemetry model and dashboard logic for a mining-rig status viewer.
pub mod dashboard;
pub mod decimal;
pub mod format;
pub mod health;
pub mod json;
pub mod log_view;
pub mod text;
pub mod webdata;
