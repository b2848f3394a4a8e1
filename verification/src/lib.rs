//! KeyVault: a local vault of texts, key/value pairs, templates and notes,
//! organised in collections, tabs and groups, with password-protected export.

pub mod crypto;
pub mod error;
pub mod model;
pub mod text;
pub mod template;
pub mod portable;
pub mod app;
