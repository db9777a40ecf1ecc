//! The description picker: for one record and a language, the text block
//! of a named game, or of a game chosen at random, split into display
//! lines. An absent language yields no lines, never an error; a missing
//! named game degrades to a random game, never to no lines.

use vstd::prelude::*;
use crate::config::Config;
use crate::pokemon::{Pokemon, lookup, spec_lookup};
use crate::rng::random_below;
use crate::strutil::{spec_lines, split_lines, views};

verus! {

/// Whether `desc` is an outcome the picker may return for record `p` under
/// language `lang` and requested game `game_info` when a description was
/// asked for: nothing when the language is absent or has no games, the
/// named game's lines when it exists, and otherwise some game's lines.
pub open spec fn spec_desc_choice(
    p: Pokemon,
    lang: Seq<char>,
    game_info: Seq<char>,
    desc: Seq<Seq<char>>,
) -> bool {
    match spec_lookup(p.desc@, lang) {
        None => desc == Seq::<Seq<char>>::empty(),
        Some(games) => {
            if game_info.len() > 0 && spec_lookup(games@, game_info) is Some {
                desc == spec_lines(spec_lookup(games@, game_info)->Some_0@)
            } else if games@.len() == 0 {
                desc == Seq::<Seq<char>>::empty()
            } else {
                exists|k: int|
                    0 <= k < games@.len() && desc == spec_lines((#[trigger] games@[k]).1@)
            }
        },
    }
}

/// The lines of a game chosen uniformly at random among the games the
/// record has for the configured language; no lines when the language is
/// absent or empty.
pub fn get_random_description(pokemon: &Pokemon, config: &Config) -> (r: Vec<String>)
    ensures
        match spec_lookup(pokemon.desc@, config.language@) {
            None => r@.len() == 0,
            Some(games) => if games@.len() == 0 {
                r@.len() == 0
            } else {
                exists|k: int|
                    0 <= k < games@.len() && views(r@) == spec_lines((#[trigger] games@[k]).1@)
            },
        },
{
    proof {
        assert(views(Seq::<String>::empty()) =~= Seq::<Seq<char>>::empty());
    }
    match lookup(&pokemon.desc, config.language.as_str()) {
        Some(games) => {
            if games.len() == 0 {
                Vec::new()
            } else {
                let k = random_below(games.len());
                split_lines(games[k].1.as_str())
            }
        },
        None => Vec::new(),
    }
}

/// Chooses the description lines for one record: the named game's text
/// when `game_info` names one the record has for the language, else a
/// random game's text, else nothing.
pub fn pick_description(pokemon: &Pokemon, config: &Config, game_info: &str) -> (r: Vec<String>)
    ensures
        spec_desc_choice(*pokemon, config.language@, game_info@, views(r@)),
{
    proof {
        assert(views(Seq::<String>::empty()) =~= Seq::<Seq<char>>::empty());
    }
    match lookup(&pokemon.desc, config.language.as_str()) {
        None => Vec::new(),
        Some(games) => {
            if !game_info.is_empty() {
                match lookup(games, game_info) {
                    Some(text) => split_lines(text.as_str()),
                    None => {
                        let r = get_random_description(pokemon, config);
                        proof {
                            if games@.len() == 0 {
                                assert(views(r@) =~= Seq::<Seq<char>>::empty());
                            }
                        }
                        r
                    },
                }
            } else {
                if games.len() == 0 {
                    Vec::new()
                } else {
                    let k = random_below(games.len());
                    let r = split_lines(games[k].1.as_str());
                    proof {
                        assert(views(r@) == spec_lines(games@[k as int].1@));
                    }
                    r
                }
            }
        },
    }
}

/// A missing named game never empties the result: when the language has at
/// least one game, whatever the picker returns is some game's lines.
pub proof fn lemma_missing_game_degrades(
    p: Pokemon,
    lang: Seq<char>,
    game_info: Seq<char>,
    desc: Seq<Seq<char>>,
)
    requires
        spec_desc_choice(p, lang, game_info, desc),
        spec_lookup(p.desc@, lang) is Some,
        spec_lookup(p.desc@, lang)->Some_0@.len() > 0,
    ensures
        exists|k: int|
            0 <= k < spec_lookup(p.desc@, lang)->Some_0@.len() && desc == spec_lines(
                (#[trigger] spec_lookup(p.desc@, lang)->Some_0@[k]).1@,
            ),
{
    let games = spec_lookup(p.desc@, lang)->Some_0;
    if game_info.len() > 0 && spec_lookup(games@, game_info) is Some {
        crate::pokemon::lemma_spec_lookup(games@, game_info);
        let i = choose|i: int|
            0 <= i < games@.len() && games@[i].0@ == game_info && games@[i].1 == spec_lookup(
                games@,
                game_info,
            )->Some_0;
        assert(desc == spec_lines(games@[i].1@));
    }
}

} // verus!
