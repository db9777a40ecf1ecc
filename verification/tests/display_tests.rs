use kingler::ascii::{draw_pokemon_art, draw_pokemon_art_under, print_ascii_art};
use kingler::cli::Name;
use kingler::config::Config;
use kingler::description::{get_random_description, pick_description};
use kingler::display::{art_path, base_slug, show_pokemon_by_name};
use kingler::error::Error;
use kingler::pokemon::{Pokemon, find_pokemon, list_pokemon_names, lookup};
use kingler::stats::display_pokemon_stats;

fn config() -> Config {
    Config {
        language: "en".to_string(),
        shiny_rate_num: 0,
        shiny_rate_den: 4096,
        shiny_log_path: "shiny_log.json".to_string(),
    }
}

fn record(slug: &str) -> Pokemon {
    Pokemon {
        slug: slug.to_string(),
        gen: 1,
        name: vec![("en".to_string(), "Display Name".to_string())],
        desc: vec![],
        forms: vec![],
        stats: None,
    }
}

fn name_request(name: &str) -> Name {
    Name {
        name: name.to_string(),
        form: "regular".to_string(),
        shiny: false,
        info: false,
        game_info: String::new(),
        no_title: false,
        under: false,
        padding_left: 0,
        stats: false,
    }
}

#[test]
fn missing_named_game_falls_back_to_another_game() {
    let mut p = record("mew");
    p.desc = vec![(
        "en".to_string(),
        vec![("other-game".to_string(), "first line\nsecond line".to_string())],
    )];
    let lines = pick_description(&p, &config(), "unknown-game");
    assert_eq!(lines, vec!["first line", "second line"]);
}

#[test]
fn present_named_game_is_used_verbatim() {
    let mut p = record("mew");
    p.desc = vec![(
        "en".to_string(),
        vec![
            ("red".to_string(), "red text".to_string()),
            ("blue".to_string(), "blue text".to_string()),
        ],
    )];
    let lines = pick_description(&p, &config(), "blue");
    assert_eq!(lines, vec!["blue text"]);
}

#[test]
fn absent_language_yields_no_lines() {
    let mut p = record("mew");
    p.desc = vec![("fr".to_string(), vec![("x".to_string(), "texte".to_string())])];
    let lines = pick_description(&p, &config(), "");
    assert!(lines.is_empty());
    let random = get_random_description(&p, &config());
    assert!(random.is_empty());
}

#[test]
fn random_description_comes_from_available_games() {
    let mut p = record("mew");
    p.desc = vec![(
        "en".to_string(),
        vec![
            ("red".to_string(), "aaa".to_string()),
            ("blue".to_string(), "bbb".to_string()),
        ],
    )];
    for _ in 0..30 {
        let lines = get_random_description(&p, &config());
        assert!(lines == vec!["aaa"] || lines == vec!["bbb"]);
    }
}

#[test]
fn interleaved_description_starts_above_midpoint_for_tall_art() {
    let art = "a1\na2\na3\na4\na5";
    let descs = vec!["hello".to_string()];
    let rows = draw_pokemon_art(art, &descs, 0, "en");
    // five art lines, start row = 5 / 2 - 1 = 1
    assert_eq!(rows.len(), 5);
    assert_eq!(rows[0], "a1\t\t");
    assert_eq!(rows[1], format!("a2\t\t\u{1b}[37m{:<6}\u{1b}[0m", "hello"));
    assert_eq!(rows[2], "a3\t\t");
}

#[test]
fn interleaved_description_starts_at_midpoint_for_short_art() {
    let art = "a1\na2";
    let descs = vec!["hi".to_string()];
    let rows = draw_pokemon_art(art, &descs, 0, "en");
    // two art lines, start row = 2 / 2 = 1
    assert_eq!(rows.len(), 2);
    assert_eq!(rows[0], "a1\t\t");
    assert_eq!(rows[1], format!("a2\t\t\u{1b}[37m{:<3}\u{1b}[0m", "hi"));
}

#[test]
fn interleaved_mode_without_description_adds_notice() {
    let art = "a1\na2";
    let rows = draw_pokemon_art(art, &vec![], 2, "de");
    assert_eq!(rows.len(), 3);
    assert_eq!(rows[2], "  No descriptions available for language: de");
}

#[test]
fn stacked_mode_places_description_below() {
    let art = "a1\na2";
    let descs = vec!["one".to_string(), "two".to_string()];
    let rows = draw_pokemon_art_under(art, &descs, 0, "en");
    assert_eq!(rows.len(), 4);
    assert_eq!(rows[0], "a1");
    assert_eq!(rows[1], "a2");
    assert_eq!(rows[2], format!("\u{1b}[37m{:<4}\u{1b}[0m", "one"));
    assert_eq!(rows[3], format!("\u{1b}[37m{:<4}\u{1b}[0m", "two"));
}

#[test]
fn plain_mode_pads_art_only() {
    let rows = print_ascii_art("ab\ncd", 4);
    assert_eq!(rows, vec!["ab  ", "cd  "]);
}

#[test]
fn stat_table_defaults_missing_stats_to_zero() {
    let mut p = record("mew");
    p.stats = Some(vec![
        ("hp".to_string(), 100),
        ("attack".to_string(), 10),
        ("defense".to_string(), 20),
        ("special-attack".to_string(), 30),
        ("special-defense".to_string(), 40),
    ]);
    let rows = display_pokemon_stats(&p);
    assert_eq!(rows.len(), 3);
    assert_eq!(rows[0], format!("{:<15} {:<5}  {:<15} {}", "hp:", 100, "speed:", 0));
    assert_eq!(rows[1], format!("{:<15} {:<5}  {:<15} {}", "attack:", 10, "special-attack:", 30));
    assert_eq!(rows[2], format!("{:<15} {:<5}  {:<15} {}", "defense:", 20, "special-defense:", 40));
}

#[test]
fn absent_stat_map_prints_only_the_notice() {
    let rows = display_pokemon_stats(&record("mew"));
    assert_eq!(rows, vec!["".to_string(), "Stats not available for this Pokémon.".to_string()]);
}

#[test]
fn by_name_request_with_unknown_game_shows_other_games_text() {
    let mut p = record("bulbasaur");
    p.desc = vec![(
        "en".to_string(),
        vec![("other-game".to_string(), "dex text".to_string())],
    )];
    let db = vec![p];
    let mut req = name_request("bulbasaur");
    req.info = true;
    req.game_info = "unknown-game".to_string();
    let rows = show_pokemon_by_name(&req, &db, &config(), "a1\na2").unwrap();
    assert!(rows.iter().any(|r| r.contains("dex text")));
}

#[test]
fn unknown_slug_is_rejected_with_the_request_name() {
    let db = vec![record("bulbasaur")];
    match show_pokemon_by_name(&name_request("missingno"), &db, &config(), "a1") {
        Err(Error::InvalidPokemon(n)) => assert_eq!(n, "missingno"),
        other => panic!("expected InvalidPokemon, got {:?}", other),
    }
}

#[test]
fn missing_language_name_is_rejected_unless_title_suppressed() {
    let mut p = record("bulbasaur");
    p.name = vec![("fr".to_string(), "Bulbizarre".to_string())];
    let db = vec![p];
    match show_pokemon_by_name(&name_request("bulbasaur"), &db, &config(), "a1") {
        Err(Error::InvalidLanguage(l)) => assert_eq!(l, "en"),
        other => panic!("expected InvalidLanguage, got {:?}", other),
    }
    let mut req = name_request("bulbasaur");
    req.no_title = true;
    let rows = show_pokemon_by_name(&req, &db, &config(), "a1").unwrap();
    assert_eq!(rows, vec!["a1"]);
}

#[test]
fn title_row_names_the_form_unless_regular() {
    let db = vec![record("bulbasaur")];
    let rows = show_pokemon_by_name(&name_request("bulbasaur"), &db, &config(), "a1").unwrap();
    assert_eq!(rows[0], "Display Name");
    let mut req = name_request("bulbasaur-mega");
    req.form = "mega".to_string();
    let rows = show_pokemon_by_name(&req, &db, &config(), "a1").unwrap();
    assert_eq!(rows[0], "Display Name (mega)");
}

#[test]
fn art_paths_follow_the_palette() {
    assert_eq!(art_path("mew", false), "colorscripts/regular/mew");
    assert_eq!(art_path("mew-mega", true), "colorscripts/shiny/mew-mega");
}

#[test]
fn base_slug_drops_the_form_suffix() {
    assert_eq!(base_slug("charizard-mega-x"), "charizard");
    assert_eq!(base_slug("mew"), "mew");
}

#[test]
fn dataset_lookup_finds_records_and_names() {
    let db = vec![record("bulbasaur"), record("ivysaur")];
    assert_eq!(find_pokemon(&db, "ivysaur"), Some(1));
    assert_eq!(find_pokemon(&db, "missingno"), None);
    assert_eq!(list_pokemon_names(&db), vec!["bulbasaur", "ivysaur"]);
    let names = vec![("en".to_string(), 7u32)];
    assert_eq!(lookup(&names, "en"), Some(&7));
    assert_eq!(lookup(&names, "fr"), None);
}

#[test]
fn language_with_no_games_yields_no_lines() {
    let mut p = record("mew");
    p.desc = vec![("en".to_string(), vec![])];
    assert!(pick_description(&p, &config(), "").is_empty());
    assert!(pick_description(&p, &config(), "red").is_empty());
}

#[test]
fn overlong_description_is_cut_at_the_art_height() {
    let art = "a1\na2";
    let descs = vec!["one".to_string(), "two".to_string(), "three".to_string()];
    let rows = draw_pokemon_art(art, &descs, 0, "en");
    // start row is 1, so only the first description line fits beside the art
    assert_eq!(rows.len(), 2);
    assert_eq!(rows[0], "a1\t\t");
    assert_eq!(rows[1], format!("a2\t\t\u{1b}[37m{:<6}\u{1b}[0m", "one"));
}

#[test]
fn stacked_mode_without_description_adds_notice() {
    let rows = draw_pokemon_art_under("a1", &vec![], 1, "ja");
    assert_eq!(rows, vec!["a1", " No descriptions available for language: ja"]);
}

#[test]
fn selection_request_carries_the_form_suffix() {
    let random = kingler::cli::Random {
        generations: "1-9".to_string(),
        info: true,
        game_info: "red".to_string(),
        shiny: false,
        no_title: false,
        under: true,
        no_mega: false,
        no_gmax: false,
        no_regional: false,
        padding_left: 3,
        stats: true,
    };
    let sel = kingler::selector::Selection {
        slug: "charizard".to_string(),
        form: "mega-x".to_string(),
        shiny: true,
    };
    let req = kingler::display::name_request_for_selection(&random, &sel);
    assert_eq!(req.name, "charizard-mega-x");
    assert_eq!(req.form, "mega-x");
    assert!(req.shiny);
    assert!(req.info && req.under && req.stats);
    assert_eq!(req.game_info, "red");
    assert_eq!(req.padding_left, 3);
    let plain = kingler::selector::Selection {
        slug: "mew".to_string(),
        form: "regular".to_string(),
        shiny: false,
    };
    let req = kingler::display::name_request_for_selection(&random, &plain);
    assert_eq!(req.name, "mew");
}
