pub mod helpers;
pub mod onboarding;
pub mod local_models;
pub mod autosave;
pub mod dictionary;
pub mod styles;
