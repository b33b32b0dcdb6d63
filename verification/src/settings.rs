//! The two settings every part of the program shares: language and theme.

use vstd::prelude::*;

use crate::chars::{ascii_lowercase, ascii_lowered, is_word};

verus! {

/// The language text is shown in.
#[derive(Debug, Clone, Copy, PartialEq, Eq, Structural)]
pub enum Language {
    German,
    English,
}

/// The language a lower-case name stands for: its code, or its name in
/// either language.
pub open spec fn language_from_lowered(slug: Seq<char>) -> Option<Language> {
    if slug == "de"@ || slug == "deutsch"@ || slug == "german"@ {
        Some(Language::German)
    } else if slug == "en"@ || slug == "englisch"@ || slug == "english"@ {
        Some(Language::English)
    } else {
        None
    }
}

impl Language {
    /// The language a command line names, in any capitalisation.
    pub fn from_slug(value: &str) -> (result: Option<Language>)
        ensures
            result == language_from_lowered(ascii_lowered(value@)),
    {
        let lowered = ascii_lowercase(value);
        if is_word(&lowered, "de") || is_word(&lowered, "deutsch") || is_word(&lowered, "german") {
            Some(Language::German)
        } else if is_word(&lowered, "en") || is_word(&lowered, "englisch") || is_word(
            &lowered,
            "english",
        ) {
            Some(Language::English)
        } else {
            None
        }
    }
}

/// How the window picks its colours.
#[derive(Debug, Clone, Copy, PartialEq, Eq, Structural)]
pub enum ThemeChoice {
    System,
    Light,
    Dark,
}

} // verus!
