use emukc_bootstrap::error::ParseError;
use emukc_bootstrap::kc3kai_quote::{parse, voice_entries, QuoteVoices};

fn keys(v: &[&str]) -> Vec<String> {
    v.iter().map(|s| s.to_string()).collect()
}

fn section(name: &str, v: &[&str]) -> (String, Vec<String>) {
    (name.to_string(), keys(v))
}

fn empty() -> QuoteVoices {
    QuoteVoices { abyssal: vec![], event: vec![], npc: vec![] }
}

#[test]
fn numeric_keys_become_voice_ids() {
    assert_eq!(voice_entries(&keys(&["1", "x", "+7", "-3", "18446744073709551615", "18446744073709551616", ""])), vec![
        1,
        7,
        18446744073709551615
    ]);
}

#[test]
fn all_three_sections_fill_the_voices() {
    let sections = vec![
        section("npc", &["9", "10"]),
        section("abyssal", &["1500", "comment", "1501"]),
        section("event", &["3"]),
    ];
    let mut voices = empty();
    assert!(parse(&sections, &mut voices).is_ok());
    assert_eq!(voices, QuoteVoices { abyssal: vec![1500, 1501], event: vec![3], npc: vec![9, 10] });
}

#[test]
fn a_missing_section_is_reported_after_the_earlier_ones_are_filled() {
    let mut voices = empty();
    match parse(&vec![section("abyssal", &["1"])], &mut voices) {
        Err(ParseError::KeyMissing(k)) => assert_eq!(k, "event"),
        other => panic!("unexpected {other:?}"),
    }
    assert_eq!(voices.abyssal, vec![1]);
    assert!(voices.event.is_empty());

    let mut voices = empty();
    match parse(&vec![section("npc", &["1"])], &mut voices) {
        Err(ParseError::KeyMissing(k)) => assert_eq!(k, "abyssal"),
        other => panic!("unexpected {other:?}"),
    }
    assert_eq!(voices, empty());
}
