//! Import-risk findings: what a build's changes threaten in existing decks.

pub mod model;
pub mod policy;
pub mod rules;

pub use model::{ImportRiskFinding, ImportRiskReport};
