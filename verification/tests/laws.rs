//! Concrete cases of what the library proves of all inputs.

use filectrl::args::{decode_arg, encode_arg};
use filectrl::bindings::{KeyBindings, KeySpec, TomlKeybindings, Action};
use filectrl::copying::Paths;
use filectrl::keys::{format_key_combo, parse_key_combo, KeyCode, KeyCombo, KeyModifiers};
use filectrl::modes::{file_creation_mode, final_mode_of, Created, SourceOwner};
use filectrl::paths::{components_of, lexical_normalize, Component};
use filectrl::unicode::truncate_left;
use filectrl::search::contains_ignore_case;
use filectrl::text::{escape_for_terminal, is_disguising, visible, visible_os};

#[test]
fn a_display_parses_back_to_the_combination() {
    let cases = [
        KeyCombo::new(KeyCode::F(255), KeyModifiers::control_only()),
        KeyCombo::new(
            KeyCode::Tab,
            KeyModifiers {
                shift: true,
                control: false,
                alt: true,
                others: 0,
            },
        ),
        KeyCombo::new(KeyCode::Char('Z'), KeyModifiers::shift_only()),
        KeyCombo::new(KeyCode::Char(' '), KeyModifiers::none()),
        KeyCombo::new(KeyCode::PageDown, KeyModifiers::none()),
    ];
    for combo in cases {
        assert_eq!(Ok(combo), parse_key_combo(&format_key_combo(&combo)));
    }
}

#[test]
fn an_arrow_key_does_not_parse_back() {
    let up = KeyCombo::new(KeyCode::Up, KeyModifiers::none());
    assert!(parse_key_combo(&format_key_combo(&up)).is_err());
    let shifted = parse_key_combo("Shift+a").unwrap();
    assert_ne!(Ok(shifted), parse_key_combo(&format_key_combo(&shifted)));
}

#[test]
fn a_key_bound_twice_to_one_action_is_no_conflict() {
    let toml = TomlKeybindings {
        quit: Some(KeySpec::Multiple(vec!["x".to_string(), "x".to_string()])),
        ..Default::default()
    };
    let kb = KeyBindings::new(Some(&toml)).ok().unwrap();
    assert_eq!(
        Some(Action::Quit),
        kb.normal_action(&KeyCode::Char('x'), &KeyModifiers::none())
    );
}

#[test]
fn an_override_leaves_other_actions_their_keys() {
    let toml = TomlKeybindings {
        quit: Some(KeySpec::Single("F9".to_string())),
        ..Default::default()
    };
    let kb = KeyBindings::new(Some(&toml)).ok().unwrap();
    assert_eq!(
        Some(Action::SelectNext),
        kb.normal_action(&KeyCode::Char('j'), &KeyModifiers::none())
    );
    assert_eq!(
        Some(Action::Quit),
        kb.normal_action(&KeyCode::F(9), &KeyModifiers::none())
    );
}

#[test]
fn decoding_undoes_encoding() {
    let bytes: &[u8] = b"\xff\xfe/tmp/\xef\x9e\x80x";
    assert_eq!(bytes.to_vec(), decode_arg(&encode_arg(bytes)));
}

#[test]
fn valid_text_shows_the_same_as_text_or_as_bytes() {
    let text = "a\u{202e}b\nc\u{e9}";
    assert_eq!(visible(text), visible_os(text.as_bytes()));
}

#[test]
fn nothing_disguising_survives() {
    let text = "x\u{1b}[2J\u{200b}\u{feff}\u{2028}y\nz";
    assert!(!visible(text).chars().any(is_disguising));
    assert!(!escape_for_terminal(text).chars().any(|c| is_disguising(c) && c != '\n'));
}

#[test]
fn ascii_search_agrees_with_lowercasing() {
    for (haystack, needle) in [("Makefile", "file"), ("LICENSE", "cen"), ("x", "xy")] {
        assert_eq!(
            haystack.to_lowercase().contains(needle),
            contains_ignore_case(haystack, needle)
        );
    }
}

#[test]
fn going_down_and_back_up_restores_a_root_path() {
    let mut paths = Paths {
        old: b"/".to_vec(),
        new: b"relative".to_vec(),
        depth: 0,
    };
    paths.push(b"x");
    assert_eq!(b"/x".to_vec(), paths.old);
    assert_eq!(b"relative/x".to_vec(), paths.new);
    paths.pop();
    assert_eq!(b"/".to_vec(), paths.old);
    assert_eq!(b"relative".to_vec(), paths.new);
}

/// Collapsing leaves no `.` or `..`, and collapsing again changes nothing.
#[test]
fn collapsing_a_path_leaves_names_only_and_again_changes_nothing() {
    for path in [&b"/a/./b/../c/.."[..], b"../x/./y", b"/../..", b"./a//b/", b"a/../../b"] {
        let once = lexical_normalize(path);
        assert_eq!(once, lexical_normalize(&once), "{path:?}");
        assert!(
            components_of(&once)
                .iter()
                .all(|c| !matches!(c, Component::Cur | Component::Parent)),
            "{path:?}"
        );
    }
    assert_eq!(b"/a".to_vec(), lexical_normalize(b"/a/./b/../c/.."));
    assert_eq!(b"x/y".to_vec(), lexical_normalize(b"../x/./y"));
}

/// A cut line keeps the longest end that fits beside the ellipsis.
#[test]
fn a_cut_line_keeps_the_longest_end_that_fits() {
    assert_eq!("…ample", truncate_left("example", 6));
    assert_eq!("…e", truncate_left("example", 2));
    // Wide characters take two columns each: only one fits in three.
    assert_eq!("…字", truncate_left("漢字", 3));
}

/// A key string is refused exactly when a modifier is unknown or the key
/// names nothing.
#[test]
fn a_key_string_is_refused_exactly_on_an_unknown_modifier_or_key() {
    for bad in ["Hyper+x", "Ctrl+Foo", "F300", "Ctrl+", "é", "Ctrl+Shift+Nope"] {
        assert!(parse_key_combo(bad).is_err(), "{bad}");
    }
    for good in ["x", "CTRL+x", "Shift+Alt+F5", "PageDown", "F"] {
        assert!(parse_key_combo(good).is_ok(), "{good}");
    }
}

/// A file copied under a umask ends with the source's permission bits the
/// umask left, and none of its special bits.
#[test]
fn a_copied_file_ends_with_what_the_umask_left() {
    for (mode, left) in [(0o104755u32, 0o755u32), (0o102755, 0o750), (0o100777, 0o500)] {
        let source = SourceOwner { mode, uid: 1000, gid: 1000 };
        let created = Created {
            mode: 0o100000 | (file_creation_mode(mode, false) & left),
            uid: 1000,
            gid: 1000,
            is_directory: false,
        };
        assert_eq!(mode & 0o777 & left, final_mode_of(false, &source, &created) & 0o7777);
    }
}
