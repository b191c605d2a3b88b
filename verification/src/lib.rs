//! Converts an EPUB e-book archive into a single plain-text document,
//! preserving book metadata, reading order, and chapter text.
//!
//! The structural resolution pipeline lives here: locating the package
//! document inside the archive, extracting metadata, resolving the ordered
//! content list (through the spine or through a navigation map), resolving
//! percent-encoded relative references against the package root, and
//! rendering each resolved content document to text. The zip container and
//! the XML/HTML parser are outside collaborators, reached through a small
//! set of trusted declarations.

pub mod book;
pub mod content;
pub mod dom;
pub mod error;
pub mod laws;
pub mod nav;
pub mod refres;
pub mod render;
pub mod strutil;
pub mod zipio;

pub use book::{epub2txt, Book};
pub use error::EpubError;
