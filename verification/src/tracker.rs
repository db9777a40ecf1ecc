//! The encounter tracker: which creatures have been seen, kept as a
//! compact JSON object in the tracker file, with the same write-whole-file
//! step as the shiny log, and the completion summary printed from it.
//! Reading and writing the file itself is the surrounding program's job.

use vstd::prelude::*;
use crate::json::{e_jstr, e_lit, jstr, lemma_p_jstr, lemma_p_lit, p_jstr, p_lit,
    write_json_string};
use crate::strutil::{spec_dec, str_eq, u128_to_string};

verus! {

/// One encountered creature, by name.
#[derive(Debug)]
pub struct EncounteredPokemon {
    pub name: String,
}

impl View for EncounteredPokemon {
    type V = Seq<char>;

    open spec fn view(&self) -> Seq<char> {
        self.name@
    }
}

impl Clone for EncounteredPokemon {
    fn clone(&self) -> (r: Self)
        ensures
            r@ == self@,
    {
        EncounteredPokemon { name: self.name.clone() }
    }
}

/// Every creature encountered so far, in first-seen order.
#[derive(Debug)]
pub struct EncounteredPokemonTracker {
    pub encounters: Vec<EncounteredPokemon>,
}

/// The name of each encounter in a sequence of encounters.
pub open spec fn encounter_views(s: Seq<EncounteredPokemon>) -> Seq<Seq<char>> {
    s.map_values(|e: EncounteredPokemon| e@)
}

/// One encounter as the compact tracker file holds it.
pub open spec fn ser_encounter(name: Seq<char>) -> Seq<char> {
    "{\"name\":"@ + jstr(name) + "}"@
}

/// The encounters joined with commas.
pub open spec fn ser_encounters(names: Seq<Seq<char>>) -> Seq<char>
    decreases names.len(),
{
    if names.len() == 0 {
        Seq::empty()
    } else if names.len() == 1 {
        ser_encounter(names[0])
    } else {
        ser_encounter(names[0]) + ","@ + ser_encounters(names.drop_first())
    }
}

/// The whole tracker file: one compact JSON object around the array.
pub open spec fn ser_tracker(names: Seq<Seq<char>>) -> Seq<char> {
    if names.len() == 0 {
        "{\"encounters\":[]}"@
    } else {
        "{\"encounters\":["@ + ser_encounters(names) + "]}"@
    }
}

/// Reads one encounter object.
pub open spec fn p_encounter(s: Seq<char>) -> Option<(Seq<char>, Seq<char>)> {
    match p_lit(s, "{\"name\":"@) {
        None => None,
        Some(r1) => match p_jstr(r1) {
            None => None,
            Some((name, r2)) => match p_lit(r2, "}"@) {
                None => None,
                Some(r3) => Some((name, r3)),
            },
        },
    }
}

/// Reads the encounters of a non-empty array up to the closing `]}`.
pub open spec fn p_encounters(s: Seq<char>) -> Option<Seq<Seq<char>>>
    decreases s.len(),
{
    match p_encounter(s) {
        None => None,
        Some((name, rest)) => if rest == "]}"@ {
            Some(seq![name])
        } else {
            match p_lit(rest, ","@) {
                None => None,
                Some(rest2) => if rest2.len() < s.len() {
                    match p_encounters(rest2) {
                        Some(names) => Some(seq![name] + names),
                        None => None,
                    }
                } else {
                    None
                },
            }
        },
    }
}

/// Reads a whole tracker file in the exact shape the writer emits.
pub open spec fn p_tracker(s: Seq<char>) -> Option<Seq<Seq<char>>> {
    if s == "{\"encounters\":[]}"@ {
        Some(Seq::empty())
    } else {
        match p_lit(s, "{\"encounters\":["@) {
            None => None,
            Some(r) => p_encounters(r),
        }
    }
}

/// The encounter parser inverts the encounter writer.
pub proof fn lemma_p_encounter(name: Seq<char>, rest: Seq<char>)
    ensures
        p_encounter(ser_encounter(name) + rest) == Some((name, rest)),
{
    let l1 = "{\"name\":"@;
    let l2 = "}"@;
    let t2 = l2 + rest;
    let t1d = jstr(name) + t2;
    assert(ser_encounter(name) + rest =~= l1 + t1d);
    lemma_p_lit(l1, t1d);
    lemma_p_jstr(name, t2);
    lemma_p_lit(l2, rest);
}

/// The encounter list parser inverts the joined writer.
pub proof fn lemma_p_encounters(names: Seq<Seq<char>>)
    requires
        names.len() >= 1,
    ensures
        p_encounters(ser_encounters(names) + "]}"@) == Some(names),
    decreases names.len(),
{
    reveal_strlit("{\"name\":");
    reveal_strlit(",");
    reveal_strlit("]}");
    let s = ser_encounters(names) + "]}"@;
    if names.len() == 1 {
        assert(s =~= ser_encounter(names[0]) + "]}"@);
        lemma_p_encounter(names[0], "]}"@);
        assert(seq![names[0]] =~= names);
    } else {
        let names2 = names.drop_first();
        let rest = ","@ + (ser_encounters(names2) + "]}"@);
        assert(s =~= ser_encounter(names[0]) + rest);
        lemma_p_encounter(names[0], rest);
        assert(rest[0] == ',');
        assert(rest != "]}"@);
        lemma_p_lit(","@, ser_encounters(names2) + "]}"@);
        assert(ser_encounter(names[0]).len() > 0);
        lemma_p_encounters(names2);
        assert(seq![names[0]] + names2 =~= names);
    }
}

/// Reading the tracker back yields exactly the encounters written.
pub proof fn lemma_tracker_round_trip(names: Seq<Seq<char>>)
    ensures
        p_tracker(ser_tracker(names)) == Some(names),
{
    reveal_strlit("{\"encounters\":[]}");
    reveal_strlit("{\"encounters\":[");
    if names.len() == 0 {
        assert(Seq::<Seq<char>>::empty() =~= names);
    } else {
        let s = ser_tracker(names);
        let body = ser_encounters(names) + "]}"@;
        assert(s =~= "{\"encounters\":["@ + body);
        reveal_strlit("{\"name\":");
        assert(ser_encounter(names[0])[0] == '{');
        assert(body[0] == '{');
        assert(s[15int] == body[0]);
        assert(s != "{\"encounters\":[]}"@) by {
            if s == "{\"encounters\":[]}"@ {
                assert(s[15int] == ']');
            }
        }
        lemma_p_lit("{\"encounters\":["@, body);
        lemma_p_encounters(names);
    }
}

/// Appends one encounter's compact block.
fn write_encounter(out: &mut String, e: &EncounteredPokemon)
    ensures
        final(out)@ == old(out)@ + ser_encounter(e@),
{
    out.append("{\"name\":");
    write_json_string(out, e.name.as_str());
    out.append("}");
    proof {
        assert(out@ =~= old(out)@ + ser_encounter(e@));
    }
}

/// One more encounter extends the joined text with a comma and the block.
proof fn lemma_ser_encounters_push(names: Seq<Seq<char>>, name: Seq<char>)
    ensures
        ser_encounters(names.push(name)) == if names.len() == 0 {
            ser_encounter(name)
        } else {
            ser_encounters(names) + ","@ + ser_encounter(name)
        },
    decreases names.len(),
{
    let np = names.push(name);
    if names.len() == 0 {
        assert(np[0] == name);
    } else {
        assert(np.drop_first() =~= names.drop_first().push(name));
        lemma_ser_encounters_push(names.drop_first(), name);
        if names.len() == 1 {
            assert(ser_encounters(np) == ser_encounter(names[0]) + ","@ + ser_encounter(name));
        } else {
            assert(ser_encounter(np[0]) + ","@ + (ser_encounters(names.drop_first()) + ","@
                + ser_encounter(name)) =~= (ser_encounter(names[0]) + ","@ + ser_encounters(
                names.drop_first(),
            )) + ","@ + ser_encounter(name));
        }
    }
}

/// The whole tracker file for the given encounters.
pub fn serialize_tracker(tracker: &EncounteredPokemonTracker) -> (r: String)
    ensures
        r@ == ser_tracker(encounter_views(tracker.encounters@)),
{
    let n = tracker.encounters.len();
    if n == 0 {
        proof {
            assert(encounter_views(tracker.encounters@).len() == 0);
        }
        return "{\"encounters\":[]}".to_owned();
    }
    let mut out = "{\"encounters\":[".to_owned();
    let mut i: usize = 0;
    while i < n
        invariant
            0 <= i <= n,
            n == tracker.encounters@.len(),
            n > 0,
            i == 0 ==> out@ == "{\"encounters\":["@,
            i > 0 ==> out@ == "{\"encounters\":["@ + ser_encounters(
                encounter_views(tracker.encounters@.take(i as int)),
            ),
        decreases n - i,
    {
        if i > 0 {
            out.append(",");
        }
        write_encounter(&mut out, &tracker.encounters[i]);
        proof {
            assert(encounter_views(tracker.encounters@.take(i + 1)) =~= encounter_views(
                tracker.encounters@.take(i as int),
            ).push(tracker.encounters@[i as int]@));
            lemma_ser_encounters_push(
                encounter_views(tracker.encounters@.take(i as int)),
                tracker.encounters@[i as int]@,
            );
            if i == 0 {
                assert(out@ =~= "{\"encounters\":["@ + ser_encounters(
                    encounter_views(tracker.encounters@.take(1)),
                ));
            } else {
                assert(out@ =~= "{\"encounters\":["@ + ser_encounters(
                    encounter_views(tracker.encounters@.take(i + 1)),
                ));
            }
        }
        i = i + 1;
    }
    out.append("]}");
    proof {
        assert(tracker.encounters@.take(n as int) =~= tracker.encounters@);
        assert(out@ =~= ser_tracker(encounter_views(tracker.encounters@)));
    }
    out
}

/// Reads one encounter at position `pos`.
fn e_encounter(s: &str, pos: usize) -> (r: Option<(EncounteredPokemon, usize)>)
    requires
        pos <= s@.len(),
    ensures
        match r {
            Some(p) => pos < p.1 <= s@.len() && p_encounter(s@.skip(pos as int)) == Some(
                (p.0@, s@.skip(p.1 as int)),
            ),
            None => p_encounter(s@.skip(pos as int)) is None,
        },
{
    let j1 = match e_lit(s, pos, "{\"name\":") {
        Some(j) => j,
        None => {
            return None;
        },
    };
    let (name, j2) = match e_jstr(s, j1) {
        Some(p) => p,
        None => {
            return None;
        },
    };
    let j3 = match e_lit(s, j2, "}") {
        Some(j) => j,
        None => {
            return None;
        },
    };
    Some((EncounteredPokemon { name }, j3))
}

/// Reads a whole tracker file back; nothing when the text is not in the
/// shape the writer emits.
pub fn load_tracker(content: &str) -> (r: Option<EncounteredPokemonTracker>)
    ensures
        match r {
            Some(t) => p_tracker(content@) == Some(encounter_views(t.encounters@)),
            None => p_tracker(content@) is None,
        },
{
    if str_eq(content, "{\"encounters\":[]}") {
        let empty = EncounteredPokemonTracker { encounters: Vec::new() };
        proof {
            assert(encounter_views(empty.encounters@) =~= Seq::<Seq<char>>::empty());
        }
        return Some(empty);
    }
    let n = content.unicode_len();
    proof {
        assert(content@.skip(0) =~= content@);
    }
    let head = match e_lit(content, 0, "{\"encounters\":[") {
        Some(j) => j,
        None => {
            return None;
        },
    };
    let mut out: Vec<EncounteredPokemon> = Vec::new();
    let mut pos: usize = head;
    proof {
        assert(encounter_views(out@) =~= Seq::<Seq<char>>::empty());
        if p_encounters(content@.skip(pos as int)) is Some {
            let es = p_encounters(content@.skip(pos as int))->Some_0;
            assert(encounter_views(out@) + es =~= es);
        }
    }
    loop
        invariant
            head <= pos <= n,
            n == content@.len(),
            (match p_encounters(content@.skip(pos as int)) {
                Some(es) => p_tracker(content@) == Some(encounter_views(out@) + es),
                None => p_tracker(content@) is None,
            }),
        decreases n - pos,
    {
        match e_encounter(content, pos) {
            None => {
                return None;
            },
            Some((e, j)) => {
                let ghost out0 = encounter_views(out@);
                let ghost ev = e@;
                out.push(e);
                proof {
                    assert(encounter_views(out@) =~= out0.push(ev));
                }
                if n - j == 2 {
                    match e_lit(content, j, "]}") {
                        Some(_) => {
                            proof {
                                reveal_strlit("]}");
                                assert(content@.skip(j as int) =~= "]}"@);
                                assert(p_encounters(content@.skip(pos as int)) == Some(
                                    seq![ev],
                                ));
                                assert(out0 + seq![ev] =~= encounter_views(out@));
                            }
                            return Some(EncounteredPokemonTracker { encounters: out });
                        },
                        None => {
                            proof {
                                reveal_strlit("]}");
                                reveal_strlit(",");
                                reveal_strlit("{\"name\":");
                                let rest = content@.skip(j as int);
                                assert(rest.len() == 2);
                                assert(rest.take(2) =~= rest);
                                assert(rest != "]}"@);
                                assert(p_encounter(content@.skip(pos as int)) == Some(
                                    (ev, rest),
                                ));
                                assert(content@.skip(pos as int).len() > 0);
                                match p_lit(rest, ","@) {
                                    None => {},
                                    Some(rest2) => {
                                        assert(rest2.len() == 1);
                                        assert(p_lit(rest2, "{\"name\":"@) is None);
                                        assert(p_encounter(rest2) is None);
                                        assert(p_encounters(rest2) is None);
                                    },
                                }
                                assert(p_encounters(content@.skip(pos as int)) is None);
                            }
                            return None;
                        },
                    }
                } else {
                    proof {
                        reveal_strlit("]}");
                        assert(content@.skip(j as int).len() != 2);
                        assert(content@.skip(j as int) != "]}"@);
                    }
                    match e_lit(content, j, ",") {
                        None => {
                            return None;
                        },
                        Some(j2) => {
                            proof {
                                reveal_strlit(",");
                                assert(content@.skip(j2 as int).len() < content@.skip(
                                    pos as int,
                                ).len());
                                if p_encounters(content@.skip(j2 as int)) is Some {
                                    let es2 = p_encounters(content@.skip(j2 as int))->Some_0;
                                    assert(p_encounters(content@.skip(pos as int)) == Some(
                                        seq![ev] + es2,
                                    ));
                                    assert(out0 + (seq![ev] + es2) =~= encounter_views(out@)
                                        + es2);
                                } else {
                                    assert(p_encounters(content@.skip(pos as int)) is None);
                                }
                            }
                            pos = j2;
                        },
                    }
                }
            },
        }
    }
}

/// Whether some name of `names` reads `name`.
pub open spec fn spec_has_name(names: Seq<Seq<char>>, name: Seq<char>) -> bool {
    exists|k: int| 0 <= k < names.len() && names[k] == name
}

/// The tracker names that prior file content stands for: what it parses
/// to, or nothing at all when it is unreadable; an unreadable tracker
/// starts afresh rather than failing.
pub open spec fn spec_prior_names(content: Seq<char>) -> Seq<Seq<char>> {
    match p_tracker(content) {
        Some(names) => names,
        None => Seq::empty(),
    }
}

/// Records one encounter: when the name is new, the new tracker file
/// content with the name appended; when it was already recorded, no new
/// content and a flag saying so.
pub fn track_encounter(content: &str, pokemon_name: &str) -> (r: (Option<String>, bool))
    ensures
        r.1 == spec_has_name(spec_prior_names(content@), pokemon_name@),
        r.1 ==> r.0 is None,
        !r.1 ==> (r.0 matches Some(out) && out@ == ser_tracker(
            spec_prior_names(content@).push(pokemon_name@),
        )),
{
    let mut tracker = match load_tracker(content) {
        Some(t) => t,
        None => EncounteredPokemonTracker { encounters: Vec::new() },
    };
    proof {
        if p_tracker(content@) is None {
            assert(encounter_views(tracker.encounters@) =~= spec_prior_names(content@));
        }
    }
    let ghost prior = encounter_views(tracker.encounters@);
    proof {
        assert(prior == spec_prior_names(content@));
    }
    let n = tracker.encounters.len();
    let mut i: usize = 0;
    while i < n
        invariant
            i <= n,
            n == tracker.encounters@.len(),
            prior == encounter_views(tracker.encounters@),
            prior == spec_prior_names(content@),
            forall|k: int| 0 <= k < i ==> prior[k] != pokemon_name@,
        decreases n - i,
    {
        if str_eq(tracker.encounters[i].name.as_str(), pokemon_name) {
            proof {
                assert(prior[i as int] == pokemon_name@);
                assert(spec_has_name(prior, pokemon_name@));
            }
            return (None, true);
        }
        i = i + 1;
    }
    proof {
        assert(!spec_has_name(prior, pokemon_name@));
    }
    tracker.encounters.push(EncounteredPokemon { name: pokemon_name.to_owned() });
    proof {
        assert(encounter_views(tracker.encounters@) =~= prior.push(pokemon_name@));
    }
    (Some(serialize_tracker(&tracker)), false)
}

/// The completion percentage in hundredths of a percent, rounded to the
/// nearest, halves up; zero when the dataset is empty.
pub open spec fn spec_completion_hundredths(unique: nat, total: nat) -> nat {
    if total == 0 {
        0
    } else {
        (unique * 10000 + total / 2) / total
    }
}

/// A hundredths count printed with two decimal places.
pub open spec fn spec_pct(h: nat) -> Seq<char> {
    spec_dec(h / 100) + "."@ + (if h % 100 < 10 {
        "0"@ + spec_dec(h % 100)
    } else {
        spec_dec(h % 100)
    })
}

/// The two summary lines of the completion command: how many unique
/// creatures were encountered, and what share of the dataset that is.
pub fn show_completion_status(unique_count: usize, total_pokemon: usize) -> (r: Vec<String>)
    ensures
        r@.len() == 2,
        r@[0]@ == "You have encountered "@ + spec_dec(unique_count as nat)
            + " unique Pokémon."@,
        r@[1]@ == "Pokedex completion: "@ + spec_pct(
            spec_completion_hundredths(unique_count as nat, total_pokemon as nat),
        ) + "% ("@ + spec_dec(unique_count as nat) + " out of "@ + spec_dec(
            total_pokemon as nat,
        ) + ")"@,
{
    let uc = u128_to_string(unique_count as u128);
    let tc = u128_to_string(total_pokemon as u128);
    let h: u128 = if total_pokemon == 0 {
        0
    } else {
        let t = total_pokemon as u128;
        ((unique_count as u128) * 10000 + t / 2) / t
    };
    let mut line1 = "You have encountered ".to_owned();
    line1.append(uc.as_str());
    line1.append(" unique Pokémon.");
    let mut line2 = "Pokedex completion: ".to_owned();
    let whole = u128_to_string(h / 100);
    line2.append(whole.as_str());
    line2.append(".");
    if h % 100 < 10 {
        line2.append("0");
    }
    let frac = u128_to_string(h % 100);
    line2.append(frac.as_str());
    line2.append("% (");
    line2.append(uc.as_str());
    line2.append(" out of ");
    line2.append(tc.as_str());
    line2.append(")");
    let mut r: Vec<String> = Vec::new();
    proof {
        assert(line1@ =~= "You have encountered "@ + spec_dec(unique_count as nat)
            + " unique Pokémon."@);
        assert(line2@ =~= "Pokedex completion: "@ + spec_pct(
            spec_completion_hundredths(unique_count as nat, total_pokemon as nat),
        ) + "% ("@ + spec_dec(unique_count as nat) + " out of "@ + spec_dec(
            total_pokemon as nat,
        ) + ")"@);
    }
    r.push(line1);
    r.push(line2);
    r
}

} // verus!
