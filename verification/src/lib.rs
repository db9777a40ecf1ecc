//! A terminal display library for ASCII-art creatures from a fixed dataset:
//! random selection under generation and form filters, localized
//! description lookup, art and description layout, stat tables, and the
//! JSON format of the encounter logs.

pub mod ascii;
pub mod cli;
pub mod config;
pub mod description;
pub mod display;
pub mod error;
pub mod json;
pub mod pokemon;
pub(crate) mod rng;
pub mod selector;
pub mod shiny_hunting;
pub mod stats;
pub mod tracker;
pub mod strutil;
