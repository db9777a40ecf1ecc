use kingler::config::Config;
use kingler::error::Error;
use kingler::strutil::{pad_to_width, parse_u8, spaces, split_lines, split_on_char, str_eq,
    u32_to_string};

#[test]
fn parse_reads_plus_and_rejects_overflow() {
    assert_eq!(parse_u8("0"), Some(0));
    assert_eq!(parse_u8("+7"), Some(7));
    assert_eq!(parse_u8("255"), Some(255));
    assert_eq!(parse_u8("256"), None);
    assert_eq!(parse_u8(""), None);
    assert_eq!(parse_u8("+"), None);
    assert_eq!(parse_u8("1 "), None);
    assert_eq!(parse_u8("-1"), None);
}

#[test]
fn decimal_rendering_matches_display() {
    assert_eq!(u32_to_string(0), "0");
    assert_eq!(u32_to_string(407), "407");
    assert_eq!(u32_to_string(4294967295), "4294967295");
}

#[test]
fn padding_is_by_character_count() {
    assert_eq!(pad_to_width("ab", 5), "ab   ");
    assert_eq!(pad_to_width("abcdef", 3), "abcdef");
    assert_eq!(pad_to_width("é", 3), "é  ");
    assert_eq!(spaces(4), "    ");
}

#[test]
fn line_splitting_matches_str_lines() {
    let samples = ["", "a", "a\nb", "a\n", "a\r\nb", "\n\n", "a\r"];
    for s in samples {
        let expected: Vec<&str> = s.lines().collect();
        let got = split_lines(s);
        assert_eq!(got, expected, "splitting {:?}", s);
    }
}

#[test]
fn comma_splitting_keeps_empty_pieces() {
    assert_eq!(split_on_char("1,3,6", ','), vec!["1", "3", "6"]);
    assert_eq!(split_on_char("a,", ','), vec!["a", ""]);
    assert_eq!(split_on_char("", ','), vec![""]);
}

#[test]
fn string_equality_is_by_contents() {
    assert!(str_eq("abc", "abc"));
    assert!(!str_eq("abc", "abd"));
    assert!(!str_eq("abc", "ab"));
}

#[test]
fn error_messages_echo_their_input() {
    assert_eq!(Error::InvalidPokemon("mewthree".to_string()).message(), "Invalid pokemon `mewthree`");
    assert_eq!(
        Error::InvalidGeneration("x-y".to_string()).message(),
        "Invalid generations `x-y`, should be integers between 1 and 9"
    );
    assert_eq!(
        Error::InvalidLanguage("xx".to_string()).message(),
        "Invalid language `xx`, should be one of [en, fr, de, it, es, ko, ja, ja_hrkt, zh_hans, zh_hant]"
    );
    assert_eq!(Error::Configuration("bad".to_string()).message(), "Configuration error: bad");
    assert_eq!(Error::IoError("oops".to_string()).message(), "I/O error: oops");
    assert_eq!(Error::PokemonDb("oops".to_string()).message(), "Failed to load pokemon db: oops");
}

#[test]
fn default_config_is_english_with_low_shiny_rate() {
    let c = Config::default();
    assert_eq!(c.language, "en");
    assert_eq!(c.shiny_rate_num, 3);
    assert_eq!(c.shiny_rate_den, 4096);
    assert_eq!(c.shiny_log_path, "shiny_log.json");
}
