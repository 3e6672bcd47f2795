//! The product authoring model: note types, notes, media and their lowering.

pub mod content;
pub mod diagnostics;
pub mod helpers;
pub mod identity;
pub mod notetype;
pub mod stock;
pub mod digest;
pub mod media_registry;
pub mod note;
pub mod assets;
pub mod template_syntax;
pub mod template_engine;
pub mod model;
pub mod lowering;
pub mod template;
pub mod template_bundle;
pub mod project;
pub mod comparison;
pub mod metadata;
pub mod document;
pub mod authoring;
pub mod legacy_lowering;
pub mod v2_lowering;
pub mod v2_notes;
