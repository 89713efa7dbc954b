use filectrl::search::contains_ignore_case;
use filectrl::text::{escape_for_terminal, is_disguising, visible, visible_os};

#[test]
fn visible_produces_printable_text_is_unchanged() {
    assert_eq!("plain caf\u{e9}", visible("plain caf\u{e9}"));
}

#[test]
fn visible_produces_an_escape_sequence_is_escaped() {
    assert_eq!("a\\u{1b}]52;c;eA==\\u{7}b", visible("a\u{1b}]52;c;eA==\u{7}b"));
}

#[test]
fn visible_produces_a_c1_control_is_escaped() {
    assert_eq!("a\\u{9b}2Jb", visible("a\u{9b}2Jb"));
}

#[test]
fn visible_produces_a_newline_and_a_tab_are_escaped() {
    assert_eq!("a\\nb\\tc", visible("a\nb\tc"));
}

#[test]
fn visible_produces_a_bidi_override_is_escaped() {
    assert_eq!("a\\u{202e}b", visible("a\u{202e}b"));
}

#[test]
fn visible_produces_invisible_characters_are_escaped() {
    assert_eq!("a\\u{2063}b\\u{3164}c", visible("a\u{2063}b\u{3164}c"));
}

#[test]
fn visible_produces_a_braille_blank_is_escaped() {
    assert_eq!("a\\u{2800}b", visible("a\u{2800}b"));
}

#[test]
fn visible_produces_a_joiner_and_a_variation_selector_are_kept() {
    assert_eq!("a\u{200d}b\u{fe0f}", visible("a\u{200d}b\u{fe0f}"));
}

#[test]
fn visible_os_produces_valid_utf8_is_unchanged() {
    assert_eq!("caf\u{e9}", visible_os(b"caf\xc3\xa9"));
}

#[test]
fn visible_os_produces_an_invalid_byte_is_spelled_out() {
    assert_eq!("caf\\xe9", visible_os(b"caf\xe9"));
}

#[test]
fn visible_os_produces_a_different_invalid_byte_is_spelled_differently() {
    assert_eq!("caf\\xff", visible_os(b"caf\xff"));
}

#[test]
fn visible_os_produces_a_replacement_character_is_not_an_invalid_byte() {
    assert_eq!("caf\u{fffd}", visible_os("caf\u{fffd}".as_bytes()));
}

#[test]
fn visible_os_produces_a_valid_run_after_an_invalid_byte_is_still_escaped() {
    assert_eq!("\\xe9\\u{202e}", visible_os(b"\xe9\xe2\x80\xae"));
}

#[test]
fn contains_ignore_case_matches_ascii_in_either_case() {
    assert!(contains_ignore_case("README", "adm"));
}

#[test]
fn contains_ignore_case_matches_ascii_that_is_not_there() {
    assert!(!contains_ignore_case("README", "adx"));
}

#[test]
fn contains_ignore_case_matches_text_that_is_not_ascii() {
    assert!(contains_ignore_case("\u{c9}T\u{c9}", "t\u{e9}"));
}

#[test]
fn contains_ignore_case_matches_an_empty_needle() {
    assert!(contains_ignore_case("README", ""));
}

#[test]
fn escape_for_terminal_produces_a_newline_is_kept() {
    assert_eq!("a\nb", escape_for_terminal("a\nb"));
}

#[test]
fn escape_for_terminal_produces_an_escape_sequence_and_a_carriage_return_are_escaped() {
    assert_eq!(
        "a\\u{1b}]0;t\\u{7}\\rb",
        escape_for_terminal("a\u{1b}]0;t\u{7}\rb")
    );
}

#[test]
fn disguising_characters_are_the_controls_and_blanks() {
    assert!(is_disguising('\u{0}'));
    assert!(is_disguising('\u{7f}'));
    assert!(is_disguising('\u{200b}'));
    assert!(is_disguising('\u{e0001}'));
    assert!(!is_disguising('a'));
    assert!(!is_disguising('\u{200d}'));
    assert!(!is_disguising('\u{fe0f}'));
    assert!(!is_disguising('\u{e0020}'));
}

#[test]
fn only_disguising_characters_are_escaped() {
    assert_eq!("\\", visible("\\"));
    assert_eq!("'\"", visible("'\""));
    assert_eq!("a\\rb", visible("a\rb"));
    assert_eq!("\\u{0}", visible("\u{0}"));
}
