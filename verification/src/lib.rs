//! An incremental-filter list selector.
//!
//! The library keeps an ordered list of named items, a substring filter that
//! grows and shrinks one trailing character at a time, and a selection that
//! always points at an item passing the filter (or is absent when nothing
//! does). Navigation moves through the filtered view with wrap-around.

pub mod config;
pub mod dispatch;
pub mod laws;
pub mod selector;
pub mod text;
