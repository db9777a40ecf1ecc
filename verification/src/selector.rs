//! The random-mode selector: reads the generation filter, narrows the
//! dataset, and picks one creature, one form and the shiny flag.

use vstd::prelude::*;
use crate::cli::Random;
use crate::config::Config;
use crate::error::Error;
use crate::pokemon::Pokemon;
use crate::rng::{random_below, random_chance};
use crate::strutil::{find_char, parse_u8, split_on_char, spec_find, spec_parse_u8, spec_split,
    str_eq, views};

verus! {

/// What the selector resolved: one concrete creature, form and palette.
#[derive(Debug, Clone)]
pub struct Selection {
    /// Identifier of the chosen record.
    pub slug: String,
    /// The chosen form; "regular" when no alternate form was chosen.
    pub form: String,
    /// Whether the shiny palette is shown.
    pub shiny: bool,
}

/// The bounds of a dash filter `a-b`, split at the first dash, each bound
/// read as `str::parse::<u8>` reads it; nothing when either bound fails.
pub open spec fn spec_dash_range(s: Seq<char>) -> Option<(u8, u8)> {
    match spec_find(s, '-') {
        Some(i) => match (spec_parse_u8(s.take(i)), spec_parse_u8(s.skip(i + 1))) {
            (Some(a), Some(b)) => Some((a, b)),
            _ => None,
        },
        None => None,
    }
}

/// Whether the generation filter `s` admits generation `g`: a dash filter
/// admits the generations of its inclusive range, a comma list admits the
/// value of each piece that parses.
pub open spec fn spec_gen_admitted(s: Seq<char>, g: u8) -> bool {
    if spec_find(s, '-') is Some {
        match spec_dash_range(s) {
            Some(p) => p.0 <= g <= p.1,
            None => false,
        }
    } else {
        exists|k: int|
            0 <= k < spec_split(s, ',').len() && spec_parse_u8(#[trigger] spec_split(s, ',')[k])
                == Some(g)
    }
}

/// Whether some record of `db` has a generation in `[a, b]`.
pub open spec fn range_has_candidate(db: Seq<Pokemon>, a: u8, b: u8) -> bool {
    exists|i: int| 0 <= i < db.len() && a <= (#[trigger] db[i]).gen <= b
}

/// Whether selection under filter `s` can fail on dataset `db`: the dash
/// filter is malformed or admits no record, or some comma piece is
/// malformed or admits no record.
pub open spec fn spec_selection_can_fail(s: Seq<char>, db: Seq<Pokemon>) -> bool {
    if spec_find(s, '-') is Some {
        match spec_dash_range(s) {
            Some(p) => !range_has_candidate(db, p.0, p.1),
            None => true,
        }
    } else {
        exists|k: int|
            0 <= k < spec_split(s, ',').len() && match spec_parse_u8(
                #[trigger] spec_split(s, ',')[k],
            ) {
                Some(g) => !range_has_candidate(db, g, g),
                None => true,
            }
    }
}

/// Reads the generation filter and resolves it to one inclusive range: the
/// two bounds of a dash filter, or one generation drawn at random from a
/// comma list.
pub fn determine_range(generations: &str) -> (r: Result<(u8, u8), Error>)
    ensures
        match r {
            Ok(p) => if spec_find(generations@, '-') is Some {
                spec_dash_range(generations@) == Some(p)
            } else {
                p.0 == p.1 && exists|k: int|
                    0 <= k < spec_split(generations@, ',').len() && spec_parse_u8(
                        #[trigger] spec_split(generations@, ',')[k],
                    ) == Some(p.0)
            },
            Err(e) => e matches Error::InvalidGeneration(g) && g@ == generations@ && if spec_find(
                generations@,
                '-',
            ) is Some {
                spec_dash_range(generations@) is None
            } else {
                exists|k: int|
                    0 <= k < spec_split(generations@, ',').len() && spec_parse_u8(
                        #[trigger] spec_split(generations@, ',')[k],
                    ) is None
            },
        },
        spec_find(generations@, '-') is Some && spec_dash_range(generations@) is None ==> r is Err,
        spec_find(generations@, '-') is None && (forall|k: int|
            0 <= k < spec_split(generations@, ',').len() ==> spec_parse_u8(
                #[trigger] spec_split(generations@, ',')[k],
            ) is Some) ==> r is Ok,
{
    let n = generations.unicode_len();
    match find_char(generations, 0, '-') {
        Some(i) => {
            proof {
                assert(generations@.skip(0) =~= generations@);
                assert(generations@.skip(0).take(i as int) =~= generations@.take(i as int));
                assert(generations@.skip(0).skip(i + 1) =~= generations@.skip(i + 1));
            }
            let sa = generations.substring_char(0, i);
            let sb = generations.substring_char(i + 1, n);
            proof {
                assert(sa@ =~= generations@.take(i as int));
                assert(sb@ =~= generations@.skip(i + 1));
            }
            let a = parse_u8(sa);
            let b = parse_u8(sb);
            match (a, b) {
                (Some(a), Some(b)) => Ok((a, b)),
                _ => Err(Error::InvalidGeneration(generations.to_owned())),
            }
        },
        None => {
            proof {
                assert(generations@.skip(0) =~= generations@);
            }
            let pieces = split_on_char(generations, ',');
            let k = random_below(pieces.len());
            proof {
                assert(views(pieces@)[k as int] == pieces@[k as int]@);
            }
            match parse_u8(pieces[k].as_str()) {
                Some(g) => Ok((g, g)),
                None => Err(Error::InvalidGeneration(generations.to_owned())),
            }
        },
    }
}

/// The positions of the records whose generation lies in `[lo, hi]`, in
/// dataset order, all of them.
pub fn filter_by_generation(db: &Vec<Pokemon>, lo: u8, hi: u8) -> (r: Vec<usize>)
    ensures
        forall|j: int|
            0 <= j < r@.len() ==> (#[trigger] r@[j]) < db@.len() && lo <= db@[r@[j] as int].gen
                <= hi,
        forall|i: int|
            0 <= i < db@.len() && lo <= (#[trigger] db@[i]).gen <= hi ==> r@.contains(i as usize),
        forall|j1: int, j2: int| 0 <= j1 < j2 < r@.len() ==> r@[j1] < r@[j2],
{
    let n = db.len();
    let mut r: Vec<usize> = Vec::new();
    let mut i: usize = 0;
    while i < n
        invariant
            i <= n,
            n == db@.len(),
            forall|j: int|
                0 <= j < r@.len() ==> (#[trigger] r@[j]) < i && lo <= db@[r@[j] as int].gen <= hi,
            forall|m: int|
                0 <= m < i && lo <= (#[trigger] db@[m]).gen <= hi ==> r@.contains(m as usize),
            forall|j1: int, j2: int| 0 <= j1 < j2 < r@.len() ==> r@[j1] < r@[j2],
        decreases n - i,
    {
        let g = db[i].gen;
        let ghost r0 = r@;
        if lo <= g && g <= hi {
            r.push(i);
            proof {
                assert(r@[r@.len() - 1] == i);
                assert forall|m: int|
                    0 <= m < i + 1 && lo <= (#[trigger] db@[m]).gen <= hi implies r@.contains(
                    m as usize,
                ) by {
                    if m < i {
                        assert(r0.contains(m as usize));
                        let j = choose|j: int| 0 <= j < r0.len() && r0[j] == m as usize;
                        assert(r@[j] == m as usize);
                    } else {
                        assert(r@[r@.len() - 1] == m as usize);
                    }
                }
            }
        }
        i = i + 1;
    }
    r
}

/// The form names that a flag excludes from random selection.
pub open spec fn is_mega(f: Seq<char>) -> bool {
    f == "mega"@ || f == "mega-x"@ || f == "mega-y"@
}

pub open spec fn is_gmax(f: Seq<char>) -> bool {
    f == "gmax"@
}

pub open spec fn is_regional(f: Seq<char>) -> bool {
    f == "alola"@ || f == "galar"@ || f == "hisui"@ || f == "paldea"@
}

/// Whether the exclusion flags bar form `f`.
pub open spec fn spec_excluded(f: Seq<char>, no_mega: bool, no_gmax: bool,
    no_regional: bool) -> bool {
    (no_mega && is_mega(f)) || (no_gmax && is_gmax(f)) || (no_regional && is_regional(f))
}

/// The candidate forms offered to the random pick: the implicit "regular"
/// form first, then every listed form the flags do not bar.
pub open spec fn spec_candidates(forms: Seq<Seq<char>>, no_mega: bool, no_gmax: bool,
    no_regional: bool) -> Seq<Seq<char>> {
    seq!["regular"@] + forms.filter(|f: Seq<char>| !spec_excluded(f, no_mega, no_gmax, no_regional))
}

fn form_excluded(f: &str, no_mega: bool, no_gmax: bool, no_regional: bool) -> (r: bool)
    ensures
        r == spec_excluded(f@, no_mega, no_gmax, no_regional),
{
    (no_mega && (str_eq(f, "mega") || str_eq(f, "mega-x") || str_eq(f, "mega-y"))) || (no_gmax
        && str_eq(f, "gmax")) || (no_regional && (str_eq(f, "alola") || str_eq(f, "galar")
        || str_eq(f, "hisui") || str_eq(f, "paldea")))
}

/// Builds the candidate form list for one record under the exclusion
/// flags; never empty, since the implicit "regular" form always stays.
pub fn candidate_forms(forms: &Vec<String>, no_mega: bool, no_gmax: bool, no_regional: bool) -> (r:
    Vec<String>)
    ensures
        views(r@) == spec_candidates(views(forms@), no_mega, no_gmax, no_regional),
        r@.len() >= 1,
{
    let ghost pred = |f: Seq<char>| !spec_excluded(f, no_mega, no_gmax, no_regional);
    let mut r: Vec<String> = Vec::new();
    r.push("regular".to_owned());
    let n = forms.len();
    let mut i: usize = 0;
    proof {
        reveal(Seq::filter);
        assert(views(forms@).take(0) =~= Seq::<Seq<char>>::empty());
        assert(Seq::<Seq<char>>::empty().filter(pred) =~= Seq::<Seq<char>>::empty());
        assert(views(r@) =~= seq!["regular"@] + views(forms@).take(0).filter(pred));
    }
    while i < n
        invariant
            i <= n,
            n == forms@.len(),
            pred == (|f: Seq<char>| !spec_excluded(f, no_mega, no_gmax, no_regional)),
            views(r@) == seq!["regular"@] + views(forms@).take(i as int).filter(pred),
        decreases n - i,
    {
        proof {
            reveal(Seq::filter);
            assert(views(forms@).take(i + 1).drop_last() =~= views(forms@).take(i as int));
            assert(views(forms@).take(i + 1).last() == forms@[i as int]@);
            assert(views(forms@).take(i + 1).filter(pred) == if pred(forms@[i as int]@) {
                views(forms@).take(i as int).filter(pred).push(forms@[i as int]@)
            } else {
                views(forms@).take(i as int).filter(pred)
            });
        }
        if !form_excluded(forms[i].as_str(), no_mega, no_gmax, no_regional) {
            let piece = forms[i].clone();
            proof {
                assert(views(r@.push(piece)) =~= views(r@).push(piece@));
                assert(seq!["regular"@] + views(forms@).take(i + 1).filter(pred) =~= (seq![
                    "regular"@,
                ] + views(forms@).take(i as int).filter(pred)).push(forms@[i as int]@));
            }
            r.push(piece);
        }
        i = i + 1;
    }
    proof {
        assert(views(forms@).take(n as int) =~= views(forms@));
    }
    r
}

/// Exclusion flags only ever narrow: under flags that are at least as
/// strict, every candidate form is a candidate under the looser flags too;
/// and a flag that is on keeps every form it names out of the candidates.
pub proof fn lemma_exclusions_monotonic(
    forms: Seq<Seq<char>>,
    m1: bool,
    g1: bool,
    r1: bool,
    m2: bool,
    g2: bool,
    r2: bool,
)
    requires
        m1 ==> m2,
        g1 ==> g2,
        r1 ==> r2,
    ensures
        forall|f: Seq<char>|
            #[trigger] spec_candidates(forms, m2, g2, r2).contains(f) ==> spec_candidates(
                forms,
                m1,
                g1,
                r1,
            ).contains(f),
        forall|f: Seq<char>|
            #[trigger] spec_candidates(forms, m2, g2, r2).contains(f) && m2 ==> !is_mega(f),
        forall|f: Seq<char>|
            #[trigger] spec_candidates(forms, m2, g2, r2).contains(f) && g2 ==> !is_gmax(f),
        forall|f: Seq<char>|
            #[trigger] spec_candidates(forms, m2, g2, r2).contains(f) && r2 ==> !is_regional(f),
{
    let p1 = |f: Seq<char>| !spec_excluded(f, m1, g1, r1);
    let p2 = |f: Seq<char>| !spec_excluded(f, m2, g2, r2);
    assert forall|f: Seq<char>| #[trigger]
        spec_candidates(forms, m2, g2, r2).contains(f) implies spec_candidates(
        forms,
        m1,
        g1,
        r1,
    ).contains(f) && !(m2 && is_mega(f)) && !(g2 && is_gmax(f)) && !(r2 && is_regional(f)) by {
        let cand2 = spec_candidates(forms, m2, g2, r2);
        let j = choose|j: int| 0 <= j < cand2.len() && cand2[j] == f;
        if j == 0 {
            assert(f == "regular"@);
            assert(spec_candidates(forms, m1, g1, r1)[0] == f);
            reveal_strlit("regular");
            reveal_strlit("mega");
            reveal_strlit("mega-x");
            reveal_strlit("mega-y");
            reveal_strlit("gmax");
            reveal_strlit("alola");
            reveal_strlit("galar");
            reveal_strlit("hisui");
            reveal_strlit("paldea");
            assert(!is_mega(f) && !is_gmax(f) && !is_regional(f));
        } else {
            let filtered2 = forms.filter(p2);
            assert(filtered2[j - 1] == f);
            broadcast use vstd::seq_lib::group_seq_lib_default;

            assert(p2(f));
            assert(forms.contains(f)) by {
                forms.lemma_filter_contains_rev(p2, f);
            }
            let i = choose|i: int| 0 <= i < forms.len() && forms[i] == f;
            assert(p1(f));
            forms.lemma_filter_contains(p1, i);
            let k = choose|k: int|
                0 <= k < forms.filter(p1).len() && forms.filter(p1)[k] == f;
            assert(spec_candidates(forms, m1, g1, r1)[k + 1] == f);
        }
    }
}

/// Resolves a random-mode request to one concrete creature, form and
/// palette. The creature's generation is admitted by the filter, the form
/// is one the exclusion flags allow, an explicit shiny request is honoured,
/// and a shiny rate of zero never turns the palette shiny by itself.
pub fn select_random_pokemon(random: &Random, pokemon_db: &Vec<Pokemon>, config: &Config) -> (r:
    Result<Selection, Error>)
    requires
        config.wf(),
    ensures
        match r {
            Ok(sel) => (exists|i: int|
                0 <= i < pokemon_db@.len() && (#[trigger] pokemon_db@[i]).slug@ == sel.slug@
                    && spec_gen_admitted(random.generations@, pokemon_db@[i].gen)
                    && spec_candidates(
                    views(pokemon_db@[i].forms@),
                    random.no_mega,
                    random.no_gmax,
                    random.no_regional,
                ).contains(sel.form@)) && (random.no_mega ==> !is_mega(sel.form@)) && (
                random.no_gmax ==> !is_gmax(sel.form@)) && (random.no_regional ==> !is_regional(
                sel.form@,
            )) && (random.shiny ==> sel.shiny) && (!random.shiny && config.shiny_rate_num == 0
                ==> !sel.shiny) && (config.shiny_rate_num == config.shiny_rate_den
                ==> sel.shiny),
            Err(e) => e matches Error::InvalidGeneration(g) && g@ == random.generations@
                && spec_selection_can_fail(random.generations@, pokemon_db@),
        },
        !spec_selection_can_fail(random.generations@, pokemon_db@) ==> r is Ok,
{
    let range = determine_range(random.generations.as_str());
    let (lo, hi) = match range {
        Ok(p) => p,
        Err(e) => {
            return Err(e);
        },
    };
    let cands = filter_by_generation(pokemon_db, lo, hi);
    if cands.len() == 0 {
        proof {
            assert(!range_has_candidate(pokemon_db@, lo, hi)) by {
                if range_has_candidate(pokemon_db@, lo, hi) {
                    let i = choose|i: int|
                        0 <= i < pokemon_db@.len() && lo <= (#[trigger] pokemon_db@[i]).gen <= hi;
                    assert(cands@.contains(i as usize));
                }
            }
        }
        return Err(Error::InvalidGeneration(random.generations.clone()));
    }
    let pick = cands[random_below(cands.len())];
    let chosen = &pokemon_db[pick];
    let forms = candidate_forms(&chosen.forms, random.no_mega, random.no_gmax, random.no_regional);
    let fpick = random_below(forms.len());
    let form = forms[fpick].clone();
    let coin = random_chance(config.shiny_rate_num, config.shiny_rate_den);
    let shiny = coin || random.shiny;
    proof {
        assert(views(forms@)[fpick as int] == forms@[fpick as int]@);
        assert(spec_candidates(
            views(chosen.forms@),
            random.no_mega,
            random.no_gmax,
            random.no_regional,
        ).contains(form@));
        lemma_exclusions_monotonic(
            views(chosen.forms@),
            random.no_mega,
            random.no_gmax,
            random.no_regional,
            random.no_mega,
            random.no_gmax,
            random.no_regional,
        );
        assert(spec_gen_admitted(random.generations@, pokemon_db@[pick as int].gen));
    }
    Ok(Selection { slug: chosen.slug.clone(), form, shiny })
}

} // verus!
