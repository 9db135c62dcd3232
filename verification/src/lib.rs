pub mod config;
pub mod local_models;
pub mod model_catalog;
pub mod overlay;
pub mod permissions;
pub mod pipeline;
pub mod platform;
pub mod prewarm;
pub mod stt;
pub mod casefold;
pub mod text;
pub mod trace;
pub mod ui;
