//! Terminal output processing: visible-text extraction and cursor coordinates.
pub mod content_extractor;
pub mod cursor_coords;
pub mod search;
pub mod input;
pub mod viewport;
