//! The request shapes a command invocation hands to the library: which
//! creature (by name or at random), which form, and the display flags.

use vstd::prelude::*;

verus! {

/// A shell for which completions can be generated.
#[derive(Debug, Clone, Copy, PartialEq, Eq, Structural)]
pub enum Shell {
    Bash,
    Elvish,
    Fish,
    PowerShell,
    Zsh,
}

/// The shell named by the completion command.
#[derive(Debug, Clone, Copy, PartialEq, Eq, Structural)]
pub struct ShellName {
    pub shell: Shell,
}

/// A request to show one creature by name.
#[derive(Debug, Clone)]
pub struct Name {
    /// Identifier of the creature to show, optionally with a form suffix.
    pub name: String,
    /// The form to show; "regular" is the implicit default form.
    pub form: String,
    /// Show the shiny palette instead of the regular one.
    pub shiny: bool,
    /// Print a description beside or under the art.
    pub info: bool,
    /// Take the description from this named game; empty means any.
    pub game_info: String,
    /// Do not print the title line.
    pub no_title: bool,
    /// Put the description under the art instead of beside it.
    pub under: bool,
    /// Pad every printed line to at least this width.
    pub padding_left: usize,
    /// Print the stat table after the art.
    pub stats: bool,
}

/// A request to show a creature chosen at random.
#[derive(Debug, Clone)]
pub struct Random {
    /// A generation, an inclusive range `a-b`, or a comma list `a,b,c`.
    pub generations: String,
    /// Print a description beside or under the art.
    pub info: bool,
    /// Take the description from this named game; empty means any.
    pub game_info: String,
    /// Show the shiny palette regardless of the shiny trial.
    pub shiny: bool,
    /// Do not print the title line.
    pub no_title: bool,
    /// Put the description under the art instead of beside it.
    pub under: bool,
    /// Never choose a mega form.
    pub no_mega: bool,
    /// Never choose a gigantamax form.
    pub no_gmax: bool,
    /// Never choose a regional form.
    pub no_regional: bool,
    /// Pad every printed line to at least this width.
    pub padding_left: usize,
    /// Print the stat table after the art.
    pub stats: bool,
}

/// One parsed command invocation.
#[derive(Debug, Clone)]
pub enum Commands {
    /// Print the identifiers of every creature in the dataset.
    List,
    /// Show one creature by name.
    Name(Name),
    /// Show a creature chosen at random under the given filters.
    Random(Random),
    /// Generate shell completions.
    Init(ShellName),
    /// Print the shiny encounter log.
    ShowShiny,
    /// Print how much of the dataset has been encountered.
    ShowCompletion,
}

/// The whole command line, as the surrounding program parsed it.
#[derive(Debug, Clone)]
pub struct Cli {
    pub command: Commands,
}

} // verus!
