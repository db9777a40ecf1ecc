//! The request orchestrator: resolves a by-name request against the
//! dataset and lays out the whole output block, title line, art with or
//! without description, and the stat table, as rows of text. The art
//! bytes themselves come from the caller's asset store; this module says
//! which asset path to fetch.

use vstd::prelude::*;
use crate::ascii::{draw_pokemon_art, draw_pokemon_art_under, print_ascii_art,
    spec_interleave_rows, spec_plain_rows, spec_stacked_rows};
use crate::cli::{Name, Random};
use crate::config::Config;
use crate::description::{pick_description, spec_desc_choice};
use crate::error::Error;
use crate::pokemon::{Pokemon, find_pokemon, lookup, spec_is_first_match, spec_lookup};
use crate::selector::Selection;
use crate::strutil::{find_char, pad_to_width, spec_find, spec_lines, spec_pad, str_eq, views};
use crate::stats::{display_pokemon_stats, spec_stats_rows};

verus! {

/// The base identifier of a request: what stands before the first dash,
/// or the whole name when it has none.
pub open spec fn spec_base_slug(s: Seq<char>) -> Seq<char> {
    match spec_find(s, '-') {
        Some(i) => s.take(i),
        None => s,
    }
}

pub fn base_slug(name: &str) -> (r: String)
    ensures
        r@ == spec_base_slug(name@),
{
    proof {
        assert(name@.skip(0) =~= name@);
    }
    match find_char(name, 0, '-') {
        Some(i) => {
            let piece = name.substring_char(0, i);
            proof {
                assert(piece@ =~= name@.take(i as int));
            }
            piece.to_owned()
        },
        None => name.to_owned(),
    }
}

/// The asset path of the art for one request: the shiny or the regular
/// folder, then the requested identifier with its form suffix.
pub fn art_path(name: &str, shiny: bool) -> (r: String)
    ensures
        shiny ==> r@ == "colorscripts/shiny/"@ + name@,
        !shiny ==> r@ == "colorscripts/regular/"@ + name@,
{
    let mut p = if shiny {
        "colorscripts/shiny/".to_owned()
    } else {
        "colorscripts/regular/".to_owned()
    };
    p.append(name);
    p
}

/// The title row: the display name padded, then the form in parentheses
/// unless it is the regular form.
pub open spec fn spec_title_row(display: Seq<char>, form: Seq<char>, pad: nat) -> Seq<char> {
    spec_pad(display, pad) + if form == "regular"@ {
        Seq::<char>::empty()
    } else {
        " ("@ + form + ")"@
    }
}

/// The art and description rows of one request: the art alone when no
/// description was asked for, else stacked or interleaved.
pub open spec fn spec_body_rows(
    art: Seq<char>,
    desc: Seq<Seq<char>>,
    info: bool,
    under: bool,
    pad: nat,
    lang: Seq<char>,
) -> Seq<Seq<char>> {
    if !info {
        spec_plain_rows(spec_lines(art), pad)
    } else if under {
        spec_stacked_rows(spec_lines(art), desc, pad, lang)
    } else {
        spec_interleave_rows(spec_lines(art), desc, pad, lang)
    }
}

/// What the output of a successful by-name request reads, for the record
/// at `i` and the description outcome `desc`: `i` holds the first record
/// matching the request's base identifier, the record has a name in the
/// configured language unless the title is suppressed, `desc` is an
/// outcome the description picker allows, and the rows are the optional
/// title row, then the laid-out body, then the optional stat table.
pub open spec fn spec_shown_rows(
    db: Seq<Pokemon>,
    i: int,
    name: Name,
    config: Config,
    art: Seq<char>,
    desc: Seq<Seq<char>>,
    rows: Seq<Seq<char>>,
) -> bool {
    &&& spec_is_first_match(db, spec_base_slug(name.name@), i)
    &&& !name.no_title ==> spec_lookup(db[i].name@, config.language@) is Some
    &&& name.info ==> spec_desc_choice(db[i], config.language@, name.game_info@, desc)
    &&& !name.info ==> desc == Seq::<Seq<char>>::empty()
    &&& rows == (if name.no_title {
        Seq::<Seq<char>>::empty()
    } else {
        seq![
            spec_title_row(
                spec_lookup(db[i].name@, config.language@)->Some_0@,
                name.form@,
                name.padding_left as nat,
            ),
        ]
    }) + spec_body_rows(art, desc, name.info, name.under, name.padding_left as nat,
        config.language@,
    ) + (if name.stats {
        spec_stats_rows(db[i])
    } else {
        Seq::<Seq<char>>::empty()
    })
}

/// How a by-name request fails: `InvalidPokemon` carrying the requested
/// name when no record's slug matches the base identifier, or
/// `InvalidLanguage` carrying the configured language when the title is
/// wanted and the first matching record has no name in that language.
pub open spec fn spec_show_failure(db: Seq<Pokemon>, name: Name, config: Config, e: Error) -> bool {
    ||| (e matches Error::InvalidPokemon(n) && n@ == name.name@ && (forall|i: int|
        0 <= i < db.len() ==> (#[trigger] db[i]).slug@ != spec_base_slug(name.name@)))
    ||| (e matches Error::InvalidLanguage(l) && l@ == config.language@ && !name.no_title && (
    exists|i: int|
        #[trigger] spec_is_first_match(db, spec_base_slug(name.name@), i) && spec_lookup(
            db[i].name@,
            config.language@,
        ) is None))
}

/// When a by-name request is owed success: a record matches the base
/// identifier, and its name is there when the title is wanted.
pub open spec fn spec_show_guaranteed(db: Seq<Pokemon>, name: Name, config: Config) -> bool {
    exists|i: int|
        #[trigger] spec_is_first_match(db, spec_base_slug(name.name@), i) && (name.no_title
            || spec_lookup(db[i].name@, config.language@) is Some)
}

/// Whether `rows` is an output the by-name request may produce: the rows
/// of `spec_shown_rows` for the first matching record and some
/// description outcome.
pub open spec fn spec_shown_ok(
    db: Seq<Pokemon>,
    name: Name,
    config: Config,
    art: Seq<char>,
    rows: Seq<Seq<char>>,
) -> bool {
    exists|i: int, desc: Seq<Seq<char>>|
        #[trigger] spec_shown_rows(db, i, name, config, art, desc, rows)
}

/// Resolves a by-name request and lays out its whole output: the record is
/// the first one matching the request's base identifier, the title row
/// appears unless suppressed, the description is chosen by the picker's
/// policy, and the stat table follows on request. Fails with
/// `InvalidPokemon` exactly when no record matches, and with
/// `InvalidLanguage` exactly when the title is wanted and the record has
/// no name in the configured language.
pub fn show_pokemon_by_name(name: &Name, pokemon_db: &Vec<Pokemon>, config: &Config, art:
    &str) -> (r: Result<Vec<String>, Error>)
    ensures
        r is Ok ==> spec_shown_ok(pokemon_db@, *name, *config, art@, views((r->Ok_0)@)),
        r is Err ==> spec_show_failure(pokemon_db@, *name, *config, r->Err_0),
        spec_show_guaranteed(pokemon_db@, *name, *config) ==> r is Ok,
{
    let base = base_slug(name.name.as_str());
    match find_pokemon(pokemon_db, base.as_str()) {
        None => {
            let e = Error::InvalidPokemon(name.name.clone());
            proof {
                assert(spec_show_failure(pokemon_db@, *name, *config, e));
                if spec_show_guaranteed(pokemon_db@, *name, *config) {
                    let i = choose|i: int|
                        spec_is_first_match(pokemon_db@, spec_base_slug(name.name@), i) && (
                        name.no_title || spec_lookup(
                            pokemon_db@[i].name@,
                            config.language@,
                        ) is Some);
                    assert(pokemon_db@[i].slug@ == spec_base_slug(name.name@));
                    assert(false);
                }
            }
            return Err(e);
        },
        Some(idx) => {
            let pokemon = &pokemon_db[idx];
            let mut rows: Vec<String> = Vec::new();
            if !name.no_title {
                match lookup(&pokemon.name, config.language.as_str()) {
                    None => {
                        let e = Error::InvalidLanguage(config.language.clone());
                        proof {
                            assert(spec_is_first_match(
                                pokemon_db@,
                                spec_base_slug(name.name@),
                                idx as int,
                            ));
                            assert(spec_show_failure(pokemon_db@, *name, *config, e));
                            if spec_show_guaranteed(pokemon_db@, *name, *config) {
                                let i = choose|i: int|
                                    spec_is_first_match(
                                        pokemon_db@,
                                        spec_base_slug(name.name@),
                                        i,
                                    ) && (name.no_title || spec_lookup(
                                        pokemon_db@[i].name@,
                                        config.language@,
                                    ) is Some);
                                assert(i == idx as int);
                                assert(false);
                            }
                        }
                        return Err(e);
                    },
                    Some(display) => {
                        let mut title = pad_to_width(display.as_str(), name.padding_left);
                        if !str_eq(name.form.as_str(), "regular") {
                            title.append(" (");
                            title.append(name.form.as_str());
                            title.append(")");
                        }
                        proof {
                            assert(title@ =~= spec_title_row(
                                spec_lookup(
                                    pokemon_db@[idx as int].name@,
                                    config.language@,
                                )->Some_0@,
                                name.form@,
                                name.padding_left as nat,
                            ));
                        }
                        rows.push(title);
                        proof {
                            assert(views(rows@) =~= seq![title@]);
                        }
                    },
                }
            }
            let ghost title_part = views(rows@);
            let desc_lines: Vec<String> = if name.info {
                pick_description(pokemon, config, name.game_info.as_str())
            } else {
                Vec::new()
            };
            let mut body: Vec<String> = if name.info {
                if name.under {
                    draw_pokemon_art_under(
                        art,
                        &desc_lines,
                        name.padding_left,
                        config.language.as_str(),
                    )
                } else {
                    draw_pokemon_art(art, &desc_lines, name.padding_left, config.language.as_str())
                }
            } else {
                print_ascii_art(art, name.padding_left)
            };
            let ghost body_part = views(body@);
            let ghost desc = views(desc_lines@);
            rows.append(&mut body);
            if name.stats {
                let mut table = display_pokemon_stats(pokemon);
                let ghost stats_part = views(table@);
                rows.append(&mut table);
                proof {
                    assert(views(rows@) =~= title_part + body_part + stats_part);
                }
            } else {
                proof {
                    assert(views(rows@) =~= title_part + body_part
                        + Seq::<Seq<char>>::empty());
                }
            }
            proof {
                if !name.info {
                    assert(desc =~= Seq::<Seq<char>>::empty());
                }
                if name.no_title {
                    assert(title_part =~= Seq::<Seq<char>>::empty());
                }
                assert(spec_shown_rows(
                    pokemon_db@,
                    idx as int,
                    *name,
                    *config,
                    art@,
                    desc,
                    views(rows@),
                ));
                assert(spec_shown_ok(pokemon_db@, *name, *config, art@, views(rows@)));
            }
            return Ok(rows);
        },
    }
}

/// The by-name request that a random-mode selection resolves to: the
/// identifier carries the chosen form as a suffix, the regular form none,
/// and the random request's display flags carry over.
pub fn name_request_for_selection(random: &Random, sel: &Selection) -> (r: Name)
    ensures
        r.name@ == sel.slug@ + (if sel.form@ == "regular"@ {
            Seq::<char>::empty()
        } else {
            "-"@ + sel.form@
        }),
        r.form@ == sel.form@,
        r.shiny == sel.shiny,
        r.info == random.info,
        r.game_info@ == random.game_info@,
        r.no_title == random.no_title,
        r.under == random.under,
        r.padding_left == random.padding_left,
        r.stats == random.stats,
{
    let mut full = sel.slug.clone();
    if !str_eq(sel.form.as_str(), "regular") {
        full.append("-");
        full.append(sel.form.as_str());
    }
    proof {
        if sel.form@ != "regular"@ {
            assert(full@ =~= sel.slug@ + ("-"@ + sel.form@));
        } else {
            assert(full@ =~= sel.slug@ + Seq::<char>::empty());
        }
    }
    Name {
        name: full,
        form: sel.form.clone(),
        shiny: sel.shiny,
        info: random.info,
        game_info: random.game_info.clone(),
        no_title: random.no_title,
        under: random.under,
        padding_left: random.padding_left,
        stats: random.stats,
    }
}

} // verus!
