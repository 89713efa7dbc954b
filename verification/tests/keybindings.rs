use filectrl::bindings::{
    apply_overrides, default_normal_bindings, default_prompt_bindings, parse_key_spec, Action,
    KeyBindings, KeySpec, TomlKeybindings,
};
use filectrl::keys::{format_key_combo, parse_key_combo, KeyCode, KeyCombo, KeyModifiers};

fn ctrl_shift() -> KeyModifiers {
    KeyModifiers {
        shift: true,
        control: true,
        alt: false,
        others: 0,
    }
}

#[test]
fn parse_single_char() {
    let combo = parse_key_combo("q").unwrap();
    assert_eq!(combo.code, KeyCode::Char('q'));
    assert_eq!(combo.modifiers, KeyModifiers::none());
}

#[test]
fn parse_uppercase_adds_shift() {
    let combo = parse_key_combo("G").unwrap();
    assert_eq!(combo.code, KeyCode::Char('G'));
    assert_eq!(combo.modifiers, KeyModifiers::shift_only());
}

#[test]
fn parse_ctrl_modifier() {
    let combo = parse_key_combo("Ctrl+c").unwrap();
    assert_eq!(combo.code, KeyCode::Char('c'));
    assert_eq!(combo.modifiers, KeyModifiers::control_only());
}

#[test]
fn parse_ctrl_shift() {
    let combo = parse_key_combo("Ctrl+Shift+a").unwrap();
    assert_eq!(combo.code, KeyCode::Char('a'));
    assert_eq!(combo.modifiers, ctrl_shift());
}

#[test]
fn parse_named_keys() {
    assert_eq!(parse_key_combo("Enter").unwrap().code, KeyCode::Enter);
    assert_eq!(parse_key_combo("Esc").unwrap().code, KeyCode::Esc);
    assert_eq!(parse_key_combo("Backspace").unwrap().code, KeyCode::Backspace);
    assert_eq!(parse_key_combo("Delete").unwrap().code, KeyCode::Delete);
    assert_eq!(parse_key_combo("Space").unwrap().code, KeyCode::Char(' '));
    assert_eq!(parse_key_combo("Home").unwrap().code, KeyCode::Home);
    assert_eq!(parse_key_combo("End").unwrap().code, KeyCode::End);
    assert_eq!(parse_key_combo("PgUp").unwrap().code, KeyCode::PageUp);
    assert_eq!(parse_key_combo("PgDn").unwrap().code, KeyCode::PageDown);
    assert_eq!(parse_key_combo("PageUp").unwrap().code, KeyCode::PageUp);
    assert_eq!(parse_key_combo("PageDown").unwrap().code, KeyCode::PageDown);
}

#[test]
fn parse_f_keys() {
    assert_eq!(parse_key_combo("F2").unwrap().code, KeyCode::F(2));
    assert_eq!(parse_key_combo("F5").unwrap().code, KeyCode::F(5));
    assert_eq!(parse_key_combo("F12").unwrap().code, KeyCode::F(12));
}

#[test]
fn parse_arrow_keys() {
    assert_eq!(parse_key_combo("Up").unwrap().code, KeyCode::Up);
    assert_eq!(parse_key_combo("Down").unwrap().code, KeyCode::Down);
    assert_eq!(parse_key_combo("Left").unwrap().code, KeyCode::Left);
    assert_eq!(parse_key_combo("Right").unwrap().code, KeyCode::Right);
}

#[test]
fn parse_special_chars() {
    assert_eq!(parse_key_combo("/").unwrap().code, KeyCode::Char('/'));
    assert_eq!(parse_key_combo("~").unwrap().code, KeyCode::Char('~'));
    assert_eq!(parse_key_combo("^").unwrap().code, KeyCode::Char('^'));
    assert_eq!(parse_key_combo("$").unwrap().code, KeyCode::Char('$'));
    assert_eq!(parse_key_combo("?").unwrap().code, KeyCode::Char('?'));
}

#[test]
fn parse_invalid_key() {
    assert!(parse_key_combo("InvalidKey").is_err());
    assert!(parse_key_combo("Ctrl+InvalidKey").is_err());
    assert!(parse_key_combo("Foo+c").is_err());
}

#[test]
fn format_round_trips() {
    let cases = ["q", "G", "Ctrl+c", "F5", "Enter", "Esc", "Space", "/"];
    for case in cases {
        let combo = parse_key_combo(case).unwrap();
        let formatted = format_key_combo(&combo);
        let reparsed = parse_key_combo(&formatted).unwrap();
        assert_eq!(
            combo, reparsed,
            "Round-trip failed for '{case}': formatted as '{formatted}'"
        );
    }
}

#[test]
fn default_bindings_have_no_conflicts() {
    assert!(KeyBindings::new(None).is_ok());
}

#[test]
fn duplicate_key_detected() {
    let toml = TomlKeybindings {
        quit: Some(KeySpec::Single("j".to_string())),
        select_next: Some(KeySpec::Single("j".to_string())),
        ..Default::default()
    };
    let result = KeyBindings::new(Some(&toml));
    assert!(result.is_err());
    let err = match result {
        Err(err) => err,
        Ok(_) => unreachable!(),
    };
    assert!(err.contains("j"), "Error should mention the key: {err}");
}

#[test]
fn override_replaces_default() {
    let toml = TomlKeybindings {
        quit: Some(KeySpec::Single("x".to_string())),
        ..Default::default()
    };
    let kb = match KeyBindings::new(Some(&toml)) {
        Ok(kb) => kb,
        Err(err) => panic!("{err}"),
    };
    // 'x' should now be Quit
    assert_eq!(
        kb.normal_action(&KeyCode::Char('x'), &KeyModifiers::none()),
        Some(Action::Quit)
    );
    // 'q' should no longer be Quit
    assert_eq!(
        kb.normal_action(&KeyCode::Char('q'), &KeyModifiers::none()),
        None
    );
}

fn defaults() -> KeyBindings {
    match KeyBindings::new(None) {
        Ok(kb) => kb,
        Err(err) => panic!("{err}"),
    }
}

#[test]
fn display_includes_hardcoded_keys() {
    let kb = defaults();
    let display = kb.display_for(Action::SelectNext);
    assert!(
        display.contains('↓'),
        "SelectNext display should include hardcoded ↓: {display}"
    );
    assert!(
        display.contains('j'),
        "SelectNext display should include rebindable j: {display}"
    );
}

#[test]
fn display_for_reset_shows_esc() {
    let kb = defaults();
    let display = kb.display_for(Action::Reset);
    assert_eq!(display, "Esc");
}

#[test]
fn uppercase_fallback_with_shift() {
    let kb = defaults();
    // SelectLast has default kc(Char('G'), SHIFT)
    // Terminal might send Char('G') with NONE — fallback should find it
    assert_eq!(
        kb.normal_action(&KeyCode::Char('G'), &KeyModifiers::none()),
        Some(Action::SelectLast)
    );
}

#[test]
fn uppercase_fallback_without_shift() {
    let kb = defaults();
    // SortByName has default kc(Char('N'), SHIFT)
    // Terminal might send Char('N') with SHIFT — direct match
    assert_eq!(
        kb.normal_action(&KeyCode::Char('N'), &KeyModifiers::shift_only()),
        Some(Action::SortByName)
    );
}

#[test]
fn prompt_action_lookup() {
    let kb = defaults();
    assert_eq!(
        kb.prompt_action(&KeyCode::Enter, &KeyModifiers::none()),
        Some(Action::PromptSubmit)
    );
    assert_eq!(
        kb.prompt_action(&KeyCode::Char('z'), &KeyModifiers::control_only()),
        Some(Action::PromptReset)
    );
}

#[test]
fn key_spec_single_and_multiple() {
    let single = KeySpec::Single("q".to_string());
    let combos = parse_key_spec(&single).unwrap();
    assert_eq!(combos.len(), 1);

    let multiple = KeySpec::Multiple(vec!["h".to_string(), "b".to_string()]);
    let combos = parse_key_spec(&multiple).unwrap();
    assert_eq!(combos.len(), 2);
}

#[test]
fn refusals_say_what_was_wrong() {
    assert_eq!(Err("Unknown modifier: 'Foo'".to_string()), parse_key_combo("Foo+c"));
    assert_eq!(Err("Unknown key: 'InvalidKey'".to_string()), parse_key_combo("InvalidKey"));
    assert_eq!(Err("Invalid F-key: 'F256'".to_string()), parse_key_combo("F256"));
    assert_eq!(Err("Invalid F-key: 'Fx'".to_string()), parse_key_combo("Fx"));
}

#[test]
fn modifier_names_are_case_insensitive() {
    let combo = parse_key_combo("CTRL+alt+x").unwrap();
    assert_eq!(
        KeyModifiers {
            shift: false,
            control: true,
            alt: true,
            others: 0
        },
        combo.modifiers
    );
}

#[test]
fn a_display_names_modifiers_in_a_fixed_order() {
    let combo = KeyCombo::new(
        KeyCode::F(10),
        KeyModifiers {
            shift: true,
            control: true,
            alt: true,
            others: 0,
        },
    );
    assert_eq!("Ctrl+Alt+Shift+F10", format_key_combo(&combo));
    assert_eq!("↑", format_key_combo(&KeyCombo::new(KeyCode::Up, KeyModifiers::none())));
    assert_eq!(
        "G",
        format_key_combo(&KeyCombo::new(KeyCode::Char('G'), KeyModifiers::shift_only()))
    );
}

#[test]
fn the_conflict_names_the_key_and_both_actions() {
    let toml = TomlKeybindings {
        quit: Some(KeySpec::Single("Ctrl+j".to_string())),
        select_next: Some(KeySpec::Single("Ctrl+j".to_string())),
        ..Default::default()
    };
    match KeyBindings::new(Some(&toml)) {
        Err(err) => assert_eq!("Key 'Ctrl+j' is bound to both Quit and SelectNext", err),
        Ok(_) => panic!("the conflict should be refused"),
    }
}

#[test]
fn an_override_that_does_not_parse_is_refused() {
    let toml = TomlKeybindings {
        quit: Some(KeySpec::Multiple(vec!["x".to_string(), "Hyper+x".to_string()])),
        ..Default::default()
    };
    match KeyBindings::new(Some(&toml)) {
        Err(err) => assert_eq!("Unknown modifier: 'Hyper'", err),
        Ok(_) => panic!("the override should be refused"),
    }
}

#[test]
fn an_action_names_itself() {
    assert_eq!("SelectNext", Action::SelectNext.name());
    assert_eq!("PromptSelectAll", Action::PromptSelectAll.name());
}

/// An override replaces the keys of an action that has a row, in its place;
/// an action without a row (Reset in normal mode) gets one after all the
/// others; every other row is left as it was.
#[test]
fn overrides_replace_in_place_or_append_a_row() {
    let mut normal = default_normal_bindings();
    let mut prompt = default_prompt_bindings();
    let before_normal = default_normal_bindings();
    let before_prompt = default_prompt_bindings();
    let toml = TomlKeybindings {
        quit: Some(KeySpec::Single("x".to_string())),
        reset: Some(KeySpec::Multiple(vec!["Ctrl+r".to_string(), "F9".to_string()])),
        ..Default::default()
    };
    assert!(apply_overrides(&mut normal, &mut prompt, &toml).is_ok());
    assert_eq!(before_normal.len() + 1, normal.len());
    for (i, (action, keys)) in before_normal.iter().enumerate() {
        assert_eq!(*action, normal[i].0);
        if *action == Action::Quit {
            assert_eq!(vec![parse_key_combo("x").unwrap()], normal[i].1);
        } else {
            assert_eq!(*keys, normal[i].1, "{action:?}");
        }
    }
    assert_eq!(Action::Reset, normal[before_normal.len()].0);
    assert_eq!(
        vec![parse_key_combo("Ctrl+r").unwrap(), parse_key_combo("F9").unwrap()],
        normal[before_normal.len()].1
    );
    assert_eq!(before_prompt, prompt);

    let bad = TomlKeybindings {
        prompt_submit: Some(KeySpec::Single("Hyper+x".to_string())),
        ..Default::default()
    };
    let mut normal = default_normal_bindings();
    let mut prompt = default_prompt_bindings();
    assert!(apply_overrides(&mut normal, &mut prompt, &bad).is_err());
}

/// A later file's values take precedence, value by value; what it leaves
/// unset keeps the earlier file's.
#[test]
fn a_later_include_takes_precedence_value_by_value() {
    let earlier = TomlKeybindings {
        quit: Some(KeySpec::Single("x".to_string())),
        refresh: Some(KeySpec::Single("r".to_string())),
        ..Default::default()
    };
    let later = TomlKeybindings {
        quit: Some(KeySpec::Single("y".to_string())),
        copy: Some(KeySpec::Single("c".to_string())),
        ..Default::default()
    };
    let merged = earlier.merged(later);
    assert!(matches!(&merged.quit, Some(KeySpec::Single(k)) if k == "y"));
    assert!(matches!(&merged.refresh, Some(KeySpec::Single(k)) if k == "r"));
    assert!(matches!(&merged.copy, Some(KeySpec::Single(k)) if k == "c"));
    assert!(merged.paste.is_none());
}
