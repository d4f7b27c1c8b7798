//! The navigation and search core of an interactive terminal viewer for
//! JSON documents. A session owns one parsed document and lets the user
//! drill into nested containers one level at a time, or fuzzy-search a
//! flattened `pointer : value` index of every leaf. Each transition of the
//! session is specified and verified; terminal handling, rendering and the
//! acquisition and parsing of the input text live with the callers.

pub mod digits;
pub mod element;
pub mod flatten;
pub mod json;
pub mod list;
pub mod search;
pub mod state;
