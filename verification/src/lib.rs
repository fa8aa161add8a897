//! Resender: the verified core of a tool that sends e-mail through the
//! Resend API, its business logic assembled by scripts from primitives.

pub mod assoc;
pub mod cli;
pub mod compose;
pub mod config;
pub mod crypto;
pub mod draft;
pub mod history;
pub mod i18n;
pub mod json;
pub mod log;
pub mod markdown;
pub mod resend;
pub mod rhai_ext;
pub mod sml_doc;
pub mod text;
pub mod update;
