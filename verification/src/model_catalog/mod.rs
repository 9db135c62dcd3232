//! The catalog of speech-to-text and language models offered in the settings,
//! and the defaults chosen from it.
pub mod types;
pub mod verification;

pub use types::ModelInfo;
pub use verification::{any_provider_verified, provider_verified};
pub mod catalog;

pub use catalog::{cached_llm_models, cached_stt_models};
pub mod defaults;

pub use defaults::{apply_smart_defaults, apply_smart_defaults_initial, smart_llm_default, smart_stt_default};
pub mod remote;
pub mod sort;
pub mod fetch;
