//! Client-side toolkit for a rate-limited HTTP API: a self-throttling
//! request budget tracker, response classification, name formatting and
//! link building, and the data shapes of decoded API responses.

pub mod api;
pub mod format;
pub mod parse;
pub mod types;
pub mod ua;

