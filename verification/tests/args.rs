use filectrl::args::{
    decode_arg, decode_path, encode_arg, escape, reject_unused, selected_action, success_status,
    Action, Args, UsageError,
};

fn args() -> Args {
    Args {
        config: None,
        includes: Vec::new(),
        no_truecolor: false,
        print_default_config: false,
        print_default_theme: false,
        print_keybindings: false,
        version: false,
        directory: None,
    }
}

fn usage_error(args: &Args) -> String {
    match selected_action(args) {
        Ok(_) => panic!("expected a usage error"),
        Err(UsageError(message)) => message,
    }
}

#[test]
fn no_action_flag_runs_the_app() {
    assert!(matches!(selected_action(&args()), Ok(None)));
}

#[test]
fn a_single_action_flag_is_selected() {
    let args = Args {
        version: true,
        ..args()
    };
    assert!(matches!(selected_action(&args), Ok(Some(Action::Version))));
}

#[test]
fn two_action_flags_are_rejected() {
    let args = Args {
        print_default_config: true,
        print_default_theme: true,
        ..args()
    };
    let error = usage_error(&args);
    assert!(error.contains("--print-default-config"), "{error}");
    assert!(error.contains("--print-default-theme"), "{error}");
}

/// `action`'s flag, plus the argument `name` names in the usage error.
fn args_with(action: Action, name: &str) -> Args {
    let mut args = args();
    match action {
        Action::DefaultConfig => args.print_default_config = true,
        Action::DefaultTheme => args.print_default_theme = true,
        Action::Keybindings => args.print_keybindings = true,
        Action::Version => args.version = true,
    }
    match name {
        "--config" => args.config = Some(b"config.toml".to_vec()),
        "--include" => args.includes = vec![b"theme.toml".to_vec()],
        "--no-truecolor" => args.no_truecolor = true,
        "A directory argument" => args.directory = Some(b"/tmp".to_vec()),
        _ => unreachable!("no such argument: {name}"),
    }
    args
}

fn an_argument_the_action_ignores_is_rejected(action: Action, name: &str) {
    assert_eq!(
        format!("{name} has no effect with {}.", action.flag()),
        usage_error(&args_with(action, name))
    );
}

#[test]
fn an_argument_the_action_ignores_is_rejected_config_with_the_default_config() {
    an_argument_the_action_ignores_is_rejected(Action::DefaultConfig, "--config");
}

#[test]
fn an_argument_the_action_ignores_is_rejected_include_with_the_default_theme() {
    an_argument_the_action_ignores_is_rejected(Action::DefaultTheme, "--include");
}

#[test]
fn an_argument_the_action_ignores_is_rejected_a_run_only_flag_with_printing() {
    an_argument_the_action_ignores_is_rejected(Action::Keybindings, "--no-truecolor");
}

#[test]
fn an_argument_the_action_ignores_is_rejected_config_with_version() {
    an_argument_the_action_ignores_is_rejected(Action::Version, "--config");
}

#[test]
fn an_argument_the_action_ignores_is_rejected_a_directory_with_printing() {
    an_argument_the_action_ignores_is_rejected(Action::Keybindings, "A directory argument");
}

#[test]
fn printing_keybindings_accepts_the_config_chain() {
    let args = Args {
        print_keybindings: true,
        config: Some(b"/tmp/config.toml".to_vec()),
        includes: vec![b"theme.toml".to_vec()],
        ..args()
    };
    assert!(matches!(selected_action(&args), Ok(Some(Action::Keybindings))));
}

#[test]
fn encoding_round_trips_every_argument() {
    let cases: [&[u8]; 5] = [
        b"plain",
        b"caf\xc3\xa9",
        // Invalid bytes, including a truncated sequence.
        b"\xe9\xff\xc3",
        // Characters in the escape range itself.
        "\u{F780}\u{F7FF}".as_bytes(),
        b"",
    ];
    for bytes in cases {
        assert_eq!(bytes.to_vec(), decode_arg(&encode_arg(bytes)), "{bytes:?}");
    }
    // Valid UTF-8 outside the escape range reaches argh unchanged.
    assert_eq!("--config=caf\u{e9}", encode_arg("--config=caf\u{e9}".as_bytes()));
}

#[test]
fn an_invalid_byte_is_carried_in_the_escape_range() {
    assert_eq!('\u{F7E9}', escape(0xe9));
    assert_eq!("caf\u{F7E9}", encode_arg(b"caf\xe9"));
}

#[test]
fn a_decoded_path_is_its_bytes() {
    assert_eq!(Ok(b"/tmp/caf\xe9".to_vec()), decode_path("/tmp/caf\u{F7E9}"));
}

#[test]
fn the_flags_are_spelled_as_typed() {
    assert_eq!("--print-default-config", Action::DefaultConfig.flag());
    assert_eq!("--print-default-theme", Action::DefaultTheme.flag());
    assert_eq!("--print-keybindings", Action::Keybindings.flag());
    assert_eq!("--version", Action::Version.flag());
}

#[test]
fn printing_keybindings_takes_the_config_and_its_includes() {
    assert!(Action::Keybindings.accepts("--config"));
    assert!(Action::Keybindings.accepts("--include"));
    assert!(!Action::Keybindings.accepts("--no-truecolor"));
    assert!(!Action::Version.accepts("--config"));
}

#[test]
fn nothing_beside_a_flag_is_nothing_to_refuse() {
    assert!(reject_unused(&args(), Action::Version).is_ok());
}

#[test]
fn a_quit_by_signal_exits_with_its_number_above_128() {
    assert_eq!(0, success_status(None));
    assert_eq!(130, success_status(Some(2)));
    assert_eq!(143, success_status(Some(15)));
}
