//! Project scaffolding for Minecraft mods: identifier sanitizing, a small
//! line-oriented template language, and the planning of which template files
//! and version lookups a generation run needs.
pub mod text;
pub mod engine;
pub mod mod_ids;
pub mod class_names;
pub mod version_metadata;
pub mod minecraft;
pub mod settings;
pub mod maven;
pub mod templates;
pub mod index;
pub mod generator;
pub mod focus;
pub mod filer;
