//! How a document's schema becomes the object that tells a user interface how to show it.
pub mod ui_object;
