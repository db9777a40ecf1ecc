//! The resolved configuration handed to the library: display language,
//! shiny probability, and where the shiny encounter log lives. The
//! probability is a ratio of two integers, `shiny_rate_num` in
//! `shiny_rate_den`.

use vstd::prelude::*;

verus! {

/// The configuration, loaded once before the library runs.
#[derive(Debug, Clone)]
pub struct Config {
    /// Language code used for names and descriptions.
    pub language: String,
    /// Numerator of the shiny probability.
    pub shiny_rate_num: u32,
    /// Denominator of the shiny probability.
    pub shiny_rate_den: u32,
    /// Path of the shiny encounter log, kept for the surrounding program.
    pub shiny_log_path: String,
}

impl Config {
    /// A usable configuration: the ratio is a probability.
    pub open spec fn wf(&self) -> bool {
        0 < self.shiny_rate_den && self.shiny_rate_num <= self.shiny_rate_den
    }
}

impl Default for Config {
    /// English, a shiny chance of 3 in 4096, and a log file beside the
    /// current directory; the surrounding program replaces the path with
    /// one under the user's configuration directory when it has one.
    fn default() -> (r: Self)
        ensures
            r.wf(),
            r.language@ == "en"@,
            r.shiny_rate_num == 3,
            r.shiny_rate_den == 4096,
            r.shiny_log_path@ == "shiny_log.json"@,
    {
        Config {
            language: "en".to_owned(),
            shiny_rate_num: 3,
            shiny_rate_den: 4096,
            shiny_log_path: "shiny_log.json".to_owned(),
        }
    }
}

} // verus!
