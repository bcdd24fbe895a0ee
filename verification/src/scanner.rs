//! File-system scanning: recognising PDF books, image-folder books and categories from
//! what a directory listing shows, and walking a library tree.

pub mod engine;
pub mod pdf;
pub mod strategy;
pub mod types;

pub use engine::Scanner;
pub use strategy::ConfigurableRecognizer;
pub use types::{CachedBookMetadata, ScanResult};
