//! A checklist of collectible items: a catalog read from CSV tables, the
//! completion state merged onto it, and the filters that pick what is shown.
pub mod text;
pub mod data;
pub mod entry;
pub mod catalog;
pub mod storage;
pub mod state;
