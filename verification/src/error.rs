//! The error kinds of the library, all terminal, each carrying the input
//! that caused it, and the one-line message printed for each.

use vstd::prelude::*;

verus! {

/// A failure of the display pipeline.
#[derive(Debug, Clone, PartialEq, Eq)]
pub enum Error {
    /// The configuration could not be resolved or parsed.
    Configuration(String),
    /// A JSON payload (the dataset, a log, a tracker file) could not be
    /// parsed.
    PokemonDb(String),
    /// The requested identifier is not in the dataset.
    InvalidPokemon(String),
    /// The requested or configured language is absent for the record shown.
    InvalidLanguage(String),
    /// The generation filter failed to parse, or admitted no candidate.
    InvalidGeneration(String),
    /// An input/output failure reported by the surrounding program.
    IoError(String),
}

/// The one-line message for each error kind.
pub open spec fn spec_message(e: Error) -> Seq<char> {
    match e {
        Error::Configuration(s) => "Configuration error: "@ + s@,
        Error::PokemonDb(s) => "Failed to load pokemon db: "@ + s@,
        Error::InvalidPokemon(s) => "Invalid pokemon `"@ + s@ + "`"@,
        Error::InvalidLanguage(s) => "Invalid language `"@ + s@
            + "`, should be one of [en, fr, de, it, es, ko, ja, ja_hrkt, zh_hans, zh_hant]"@,
        Error::InvalidGeneration(s) => "Invalid generations `"@ + s@
            + "`, should be integers between 1 and 9"@,
        Error::IoError(s) => "I/O error: "@ + s@,
    }
}

impl Error {
    /// The message printed at the command boundary before a non-zero exit.
    pub fn message(&self) -> (r: String)
        ensures
            r@ == spec_message(*self),
    {
        match self {
            Error::Configuration(s) => {
                let mut m = "Configuration error: ".to_owned();
                m.append(s.as_str());
                m
            },
            Error::PokemonDb(s) => {
                let mut m = "Failed to load pokemon db: ".to_owned();
                m.append(s.as_str());
                m
            },
            Error::InvalidPokemon(s) => {
                let mut m = "Invalid pokemon `".to_owned();
                m.append(s.as_str());
                m.append("`");
                m
            },
            Error::InvalidLanguage(s) => {
                let mut m = "Invalid language `".to_owned();
                m.append(s.as_str());
                m.append(
                    "`, should be one of [en, fr, de, it, es, ko, ja, ja_hrkt, zh_hans, zh_hant]",
                );
                m
            },
            Error::InvalidGeneration(s) => {
                let mut m = "Invalid generations `".to_owned();
                m.append(s.as_str());
                m.append("`, should be integers between 1 and 9");
                m
            },
            Error::IoError(s) => {
                let mut m = "I/O error: ".to_owned();
                m.append(s.as_str());
                m
            },
        }
    }
}

} // verus!
