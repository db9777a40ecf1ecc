use kingler::error::Error;
use kingler::shiny_hunting::{ShinyLogEntry, display_shiny_log, load_shiny_log,
    log_shiny_capture, serialize_shiny_log};
use kingler::tracker::{EncounteredPokemon, EncounteredPokemonTracker, load_tracker,
    serialize_tracker, show_completion_status, track_encounter};

fn entry(name: &str, details: &str) -> ShinyLogEntry {
    ShinyLogEntry {
        pokemon_name: name.to_string(),
        form: "regular".to_string(),
        date: "2024-01-02".to_string(),
        details: details.to_string(),
    }
}

#[test]
fn log_appends_one_entry_at_a_time_without_loss() {
    let mut content = String::new();
    for i in 0..5 {
        let e = entry(&format!("mew-{}", i), "seen");
        content = log_shiny_capture(&content, &e).unwrap();
    }
    let entries = load_shiny_log(&content).unwrap();
    assert_eq!(entries.len(), 5);
    for (i, e) in entries.iter().enumerate() {
        assert_eq!(e.pokemon_name, format!("mew-{}", i));
        assert_eq!(e.form, "regular");
        assert_eq!(e.date, "2024-01-02");
        assert_eq!(e.details, "seen");
    }
}

#[test]
fn log_file_is_a_pretty_printed_array() {
    let one = serialize_shiny_log(&vec![entry("mew", "first")]);
    let expected = "[\n  {\n    \"pokemon_name\": \"mew\",\n    \"form\": \"regular\",\n    \
                    \"date\": \"2024-01-02\",\n    \"details\": \"first\"\n  }\n]";
    assert_eq!(one, expected);
    assert_eq!(serialize_shiny_log(&vec![]), "[]");
}

#[test]
fn log_matches_the_reference_json_writer() {
    let entries = vec![entry("mew", "a \"quoted\" detail"), entry("mew-two", "line\nbreak")];
    let ours = serialize_shiny_log(&entries);
    let value: serde_json::Value = serde_json::from_str(&ours).unwrap();
    let array = value.as_array().unwrap();
    assert_eq!(array.len(), 2);
    assert_eq!(array[0]["details"].as_str().unwrap(), "a \"quoted\" detail");
    assert_eq!(array[1]["details"].as_str().unwrap(), "line\nbreak");
}

#[test]
fn log_round_trips_special_characters() {
    let e = ShinyLogEntry {
        pokemon_name: "mew \"two\"".to_string(),
        form: "back\\slash".to_string(),
        date: "tab\there".to_string(),
        details: "ctrl\u{1}char and déjà vu\r\n".to_string(),
    };
    let content = serialize_shiny_log(&vec![e]);
    let back = load_shiny_log(&content).unwrap();
    assert_eq!(back.len(), 1);
    assert_eq!(back[0].pokemon_name, "mew \"two\"");
    assert_eq!(back[0].form, "back\\slash");
    assert_eq!(back[0].date, "tab\there");
    assert_eq!(back[0].details, "ctrl\u{1}char and déjà vu\r\n");
}

#[test]
fn malformed_log_is_an_io_error() {
    match load_shiny_log("not json at all") {
        Err(Error::IoError(_)) => {},
        other => panic!("expected IoError, got {:?}", other),
    }
}

#[test]
fn log_lines_pair_date_name_form_and_details() {
    let lines = display_shiny_log(&vec![entry("mew", "caught at night")]);
    assert_eq!(lines, vec!["2024-01-02: mew regular - caught at night"]);
}

#[test]
fn tracker_round_trips_and_stays_unique() {
    let (first, already) = track_encounter("", "bulbasaur");
    assert!(!already);
    let first = first.unwrap();
    assert_eq!(first, "{\"encounters\":[{\"name\":\"bulbasaur\"}]}");
    let (second, already) = track_encounter(&first, "ivysaur");
    assert!(!already);
    let second = second.unwrap();
    let (none, already) = track_encounter(&second, "bulbasaur");
    assert!(already);
    assert!(none.is_none());
    let tracker = load_tracker(&second).unwrap();
    let names: Vec<&str> = tracker.encounters.iter().map(|e| e.name.as_str()).collect();
    assert_eq!(names, vec!["bulbasaur", "ivysaur"]);
}

#[test]
fn tracker_file_matches_the_reference_json_writer() {
    let tracker = EncounteredPokemonTracker {
        encounters: vec![
            EncounteredPokemon { name: "mew".to_string() },
            EncounteredPokemon { name: "d\"q".to_string() },
        ],
    };
    let ours = serialize_tracker(&tracker);
    let value: serde_json::Value = serde_json::from_str(&ours).unwrap();
    let names: Vec<&str> = value["encounters"]
        .as_array()
        .unwrap()
        .iter()
        .map(|e| e["name"].as_str().unwrap())
        .collect();
    assert_eq!(names, vec!["mew", "d\"q"]);
}

#[test]
fn unreadable_tracker_content_starts_afresh() {
    let (out, already) = track_encounter("garbage", "mew");
    assert!(!already);
    assert_eq!(out.unwrap(), "{\"encounters\":[{\"name\":\"mew\"}]}");
}

#[test]
fn completion_status_reports_count_and_share() {
    let lines = show_completion_status(1, 3);
    assert_eq!(lines[0], "You have encountered 1 unique Pokémon.");
    assert_eq!(lines[1], "Pokedex completion: 33.33% (1 out of 3)");
    let lines = show_completion_status(0, 1025);
    assert_eq!(lines[1], "Pokedex completion: 0.00% (0 out of 1025)");
    let lines = show_completion_status(1025, 1025);
    assert_eq!(lines[1], "Pokedex completion: 100.00% (1025 out of 1025)");
    let lines = show_completion_status(3, 0);
    assert_eq!(lines[1], "Pokedex completion: 0.00% (3 out of 0)");
}
