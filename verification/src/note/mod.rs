//! Notes that own their model and typed content until added to a project.

pub mod content;
pub mod error;
pub mod occlusion;
pub mod occlusion_error;
pub mod stock_models;
pub mod note;

pub use content::{Content, Media};
pub use error::{AddError, AddErrorKind};
pub use note::Note;
pub use occlusion::OcclusionMode;
pub use occlusion_error::{ImageOcclusionError, ImageOcclusionErrorKind};
