//! Context menu manager: the logic behind the window and the command line.
//!
//! Everything in here is pure: it takes plain values and gives plain values
//! back. Reading the registry, drawing the window and printing to a console
//! happen around it.

use vstd::prelude::*;

pub mod chars;
pub mod settings;
pub mod bilingual;
pub mod model;
pub mod create;
pub mod favourites;
pub mod i18n;
pub mod window;
pub mod labels;
pub mod outcome;
pub mod glyphs;
pub mod notes;
pub mod services;
pub mod tools;
pub mod handler;
pub mod table;
pub mod steps;
pub mod plan;
pub mod forms;
pub mod screen;
pub mod summary;
pub mod tally;
pub mod selection;
pub mod commands;
pub mod cli;

verus! {

/// The version of this build, as `--version` and the window title report it.
pub const VERSION: &'static str = "1.0.0";

} // verus!
