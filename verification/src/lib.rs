//! Browser model for directories on a filesystem that keeps recursive usage
//! totals: listing, ordering, selection, and gauge rendering.

pub mod app;
pub mod entry;
pub mod gauge;
pub mod listing;
pub mod navigation;
pub mod num;
pub mod popup;
pub mod probe;
pub mod scan;
pub mod sort;
pub mod text;
pub mod timefmt;
pub mod ui;
