//! A small documentation wiki: a directory of Markdown files served as HTML
//! pages through a single template, plus a generated page index.
//!
//! The library covers the page pipeline itself: deciding which titles are
//! safe to use as file names, turning Markdown into an HTML fragment,
//! building the sorted page listing, rendering the template, and mapping
//! each outcome to an HTTP status. Reading files and speaking HTTP are left
//! to the surrounding program, which hands the library plain values.

pub mod config;
pub mod handler;
pub mod listing;
pub mod markdown;
pub mod template;
pub mod title;
