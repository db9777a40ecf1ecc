use kingler::cli::Random;
use kingler::config::Config;
use kingler::error::Error;
use kingler::pokemon::Pokemon;
use kingler::selector::{candidate_forms, determine_range, select_random_pokemon};

fn record(slug: &str, gen: u8) -> Pokemon {
    Pokemon {
        slug: slug.to_string(),
        gen,
        name: vec![("en".to_string(), slug.to_string())],
        desc: vec![],
        forms: vec![],
        stats: None,
    }
}

fn record_with_forms(slug: &str, gen: u8, forms: &[&str]) -> Pokemon {
    let mut p = record(slug, gen);
    p.forms = forms.iter().map(|f| f.to_string()).collect();
    p
}

fn request(generations: &str) -> Random {
    Random {
        generations: generations.to_string(),
        info: false,
        game_info: String::new(),
        shiny: false,
        no_title: false,
        under: false,
        no_mega: false,
        no_gmax: false,
        no_regional: false,
        padding_left: 0,
        stats: false,
    }
}

fn config() -> Config {
    Config {
        language: "en".to_string(),
        shiny_rate_num: 0,
        shiny_rate_den: 4096,
        shiny_log_path: "shiny_log.json".to_string(),
    }
}

#[test]
fn range_dash_parses_both_bounds() {
    assert_eq!(determine_range("1-3").unwrap(), (1, 3));
    assert_eq!(determine_range("3-1").unwrap(), (3, 1));
    assert_eq!(determine_range("+2-9").unwrap(), (2, 9));
}

#[test]
fn range_comma_list_collapses_to_one_generation() {
    for _ in 0..50 {
        let (a, b) = determine_range("1,3,6").unwrap();
        assert_eq!(a, b);
        assert!(a == 1 || a == 3 || a == 6);
    }
}

#[test]
fn range_single_value_is_degenerate() {
    assert_eq!(determine_range("7").unwrap(), (7, 7));
}

#[test]
fn malformed_dash_filter_is_rejected_with_echo() {
    match determine_range("x-y") {
        Err(Error::InvalidGeneration(s)) => assert_eq!(s, "x-y"),
        other => panic!("expected InvalidGeneration, got {:?}", other),
    }
    match determine_range("0-abc") {
        Err(Error::InvalidGeneration(s)) => assert_eq!(s, "0-abc"),
        other => panic!("expected InvalidGeneration, got {:?}", other),
    }
    match determine_range("256-1") {
        Err(Error::InvalidGeneration(s)) => assert_eq!(s, "256-1"),
        other => panic!("expected InvalidGeneration, got {:?}", other),
    }
}

#[test]
fn selection_respects_generation_range() {
    let db = vec![record("bulbasaur", 1), record("chikorita", 2)];
    for _ in 0..50 {
        let sel = select_random_pokemon(&request("1-1"), &db, &config()).unwrap();
        assert_eq!(sel.slug, "bulbasaur");
    }
}

#[test]
fn selection_from_comma_list_uses_listed_generations() {
    let db = vec![record("bulbasaur", 1), record("chikorita", 2), record("torchic", 3)];
    for _ in 0..50 {
        let sel = select_random_pokemon(&request("1,3"), &db, &config()).unwrap();
        assert!(sel.slug == "bulbasaur" || sel.slug == "torchic");
    }
}

#[test]
fn selection_with_no_candidates_is_rejected() {
    let db = vec![record("bulbasaur", 1)];
    match select_random_pokemon(&request("4-9"), &db, &config()) {
        Err(Error::InvalidGeneration(s)) => assert_eq!(s, "4-9"),
        other => panic!("expected InvalidGeneration, got {:?}", other),
    }
}

#[test]
fn candidate_forms_keeps_regular_first() {
    let forms = vec!["mega".to_string(), "gmax".to_string(), "alola".to_string()];
    let all = candidate_forms(&forms, false, false, false);
    assert_eq!(all, vec!["regular", "mega", "gmax", "alola"]);
}

#[test]
fn exclusion_flags_remove_exactly_their_forms() {
    let forms = vec![
        "mega".to_string(),
        "mega-x".to_string(),
        "mega-y".to_string(),
        "gmax".to_string(),
        "alola".to_string(),
        "galar".to_string(),
        "hisui".to_string(),
        "paldea".to_string(),
    ];
    let no_mega = candidate_forms(&forms, true, false, false);
    assert_eq!(no_mega, vec!["regular", "gmax", "alola", "galar", "hisui", "paldea"]);
    let no_gmax = candidate_forms(&forms, false, true, false);
    assert_eq!(no_gmax, vec![
        "regular", "mega", "mega-x", "mega-y", "alola", "galar", "hisui", "paldea"
    ]);
    let none_left = candidate_forms(&forms, true, true, true);
    assert_eq!(none_left, vec!["regular"]);
}

#[test]
fn exclusion_flags_are_monotonic() {
    let forms = vec!["mega".to_string(), "gmax".to_string(), "custom".to_string()];
    let loose = candidate_forms(&forms, false, false, false);
    let strict = candidate_forms(&forms, true, true, true);
    for f in &strict {
        assert!(loose.contains(f));
    }
    assert!(!strict.iter().any(|f| f == "mega" || f == "gmax"));
}

#[test]
fn excluded_forms_are_never_selected() {
    let db = vec![record_with_forms("charizard", 1, &["mega-x", "mega-y", "gmax"])];
    let mut req = request("1-1");
    req.no_mega = true;
    for _ in 0..50 {
        let sel = select_random_pokemon(&req, &db, &config()).unwrap();
        assert!(sel.form == "regular" || sel.form == "gmax");
    }
    req.no_gmax = true;
    for _ in 0..50 {
        let sel = select_random_pokemon(&req, &db, &config()).unwrap();
        assert_eq!(sel.form, "regular");
    }
}

#[test]
fn explicit_shiny_request_is_honoured() {
    let db = vec![record("mew", 1)];
    let mut req = request("1-1");
    req.shiny = true;
    let sel = select_random_pokemon(&req, &db, &config()).unwrap();
    assert!(sel.shiny);
}

#[test]
fn zero_rate_never_rolls_shiny() {
    let db = vec![record("mew", 1)];
    for _ in 0..50 {
        let sel = select_random_pokemon(&request("1-1"), &db, &config()).unwrap();
        assert!(!sel.shiny);
    }
}

#[test]
fn full_rate_always_rolls_shiny() {
    let db = vec![record("mew", 1)];
    let mut cfg = config();
    cfg.shiny_rate_num = 4096;
    let sel = select_random_pokemon(&request("1-1"), &db, &cfg).unwrap();
    assert!(sel.shiny);
}

#[test]
fn second_dash_lands_in_the_upper_bound() {
    // the filter splits at the first dash, so the rest fails to parse
    match determine_range("1-3-5") {
        Err(Error::InvalidGeneration(s)) => assert_eq!(s, "1-3-5"),
        other => panic!("expected InvalidGeneration, got {:?}", other),
    }
}

#[test]
fn inverted_range_surfaces_as_no_candidates() {
    let db = vec![record("bulbasaur", 1), record("chikorita", 2)];
    match select_random_pokemon(&request("2-1"), &db, &config()) {
        Err(Error::InvalidGeneration(s)) => assert_eq!(s, "2-1"),
        other => panic!("expected InvalidGeneration, got {:?}", other),
    }
}
