//! A search-and-replace engine for text: one regular-expression matcher
//! serves line-oriented matching, whole-file matching and rewriting.
//!
//! Texts are held as `&str` and `String`; contracts speak of their UTF-8
//! bytes, which is what the output sink receives.

pub mod text;
pub mod pattern;
pub mod group;
pub mod config;
pub mod emit;
pub mod decide;
pub mod split;
pub mod replace;
pub mod select;
pub mod file;
pub mod run;
pub mod args;
pub mod parameters;
pub mod opts;
