//! Lists running processes that match a query, classifies each one as an
//! application, a background service or a bare executable, resolves an icon
//! for it and orders the result for a launcher.
pub mod classify;
pub mod icons;
pub mod listing;
pub mod manifest;
pub mod rank;
pub mod results;
pub mod text;
