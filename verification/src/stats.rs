//! The stats formatter: a fixed three-row, two-column table pairing
//! hp/speed, attack/special-attack and defense/special-defense, with a
//! missing stat printed as 0, or a notice when the record has no stats.

use vstd::prelude::*;
use crate::pokemon::{Pokemon, lookup, spec_lookup};
use crate::strutil::{pad_to_width, spec_dec, spec_pad, u32_to_string, views};

verus! {

/// The value printed for a stat: the recorded value, or 0 when the stat
/// name is missing from the map.
pub open spec fn spec_stat_or_zero(stats: Seq<(String, u32)>, name: Seq<char>) -> u32 {
    match spec_lookup(stats, name) {
        Some(v) => v,
        None => 0,
    }
}

/// One table row: the first label padded to 15, its value padded to 5, two
/// spaces, the second label padded to 15, and its value.
pub open spec fn spec_stat_row(label1: Seq<char>, v1: u32, label2: Seq<char>, v2: u32) -> Seq<
    char,
> {
    spec_pad(label1, 15) + " "@ + spec_pad(spec_dec(v1 as nat), 5) + "  "@ + spec_pad(label2, 15)
        + " "@ + spec_dec(v2 as nat)
}

/// The rows the stats table prints for one record: three rows over the six
/// canonical stats, or an empty row and a notice when the record has no
/// stat map at all.
pub open spec fn spec_stats_rows(p: Pokemon) -> Seq<Seq<char>> {
    match p.stats {
        Some(st) => seq![
            spec_stat_row("hp:"@, spec_stat_or_zero(st@, "hp"@), "speed:"@, spec_stat_or_zero(st@, "speed"@)),
            spec_stat_row(
                "attack:"@,
                spec_stat_or_zero(st@, "attack"@),
                "special-attack:"@,
                spec_stat_or_zero(st@, "special-attack"@),
            ),
            spec_stat_row(
                "defense:"@,
                spec_stat_or_zero(st@, "defense"@),
                "special-defense:"@,
                spec_stat_or_zero(st@, "special-defense"@),
            ),
        ],
        None => seq![Seq::<char>::empty(), "Stats not available for this Pokémon."@],
    }
}

/// The recorded value of a stat, or 0 when it is missing.
fn stat_or_zero(stats: &Vec<(String, u32)>, name: &str) -> (r: u32)
    ensures
        r == spec_stat_or_zero(stats@, name@),
{
    match lookup(stats, name) {
        Some(v) => *v,
        None => 0,
    }
}

/// One table row, as `spec_stat_row` lays it out.
fn stat_row(label1: &str, v1: u32, label2: &str, v2: u32) -> (r: String)
    ensures
        r@ == spec_stat_row(label1@, v1, label2@, v2),
{
    let mut row = pad_to_width(label1, 15);
    row.append(" ");
    let s1 = u32_to_string(v1);
    let p1 = pad_to_width(s1.as_str(), 5);
    row.append(p1.as_str());
    row.append("  ");
    let l2 = pad_to_width(label2, 15);
    row.append(l2.as_str());
    row.append(" ");
    let s2 = u32_to_string(v2);
    row.append(s2.as_str());
    row
}

/// The rows of the stat table for one record, or the notice rows when the
/// record has no stats.
pub fn display_pokemon_stats(pokemon: &Pokemon) -> (r: Vec<String>)
    ensures
        views(r@) == spec_stats_rows(*pokemon),
{
    let mut r: Vec<String> = Vec::new();
    match &pokemon.stats {
        Some(st) => {
            let hp = stat_or_zero(st, "hp");
            let speed = stat_or_zero(st, "speed");
            let attack = stat_or_zero(st, "attack");
            let sp_attack = stat_or_zero(st, "special-attack");
            let defense = stat_or_zero(st, "defense");
            let sp_defense = stat_or_zero(st, "special-defense");
            r.push(stat_row("hp:", hp, "speed:", speed));
            r.push(stat_row("attack:", attack, "special-attack:", sp_attack));
            r.push(stat_row("defense:", defense, "special-defense:", sp_defense));
        },
        None => {
            r.push(String::new());
            r.push("Stats not available for this Pokémon.".to_owned());
        },
    }
    proof {
        assert(views(r@) =~= spec_stats_rows(*pokemon));
    }
    r
}

} // verus!
