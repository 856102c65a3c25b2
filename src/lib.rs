//! Turns annotated code samples found in documentation into standalone test
//! files, one per sample, by placing each sample into a named template.

pub mod extract;
pub mod fence;
pub mod language;
pub mod laws;
pub mod links;
pub mod materialize;
pub mod registry;
pub mod text;
