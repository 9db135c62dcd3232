pub mod permissions;
pub mod paste;
