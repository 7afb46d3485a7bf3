use kamfw::cli::{parse_args, Command};
use kamfw::exit_codes;
use kamfw::output::OutputMode;

fn argv(items: &[&str]) -> Vec<String> {
    items.iter().map(|s| s.to_string()).collect()
}

#[test]
fn run_passes_arguments_after_separator() {
    let cli = parse_args(argv(&["prog", "run", "boot", "--", "--flag", "x"])).unwrap();
    assert_eq!(cli.mode, OutputMode::Text);
    match cli.cmd {
        Command::Run { phase, args } => {
            assert_eq!(phase, "boot");
            assert_eq!(args, vec!["--flag".to_string(), "x".to_string()]);
        }
        other => panic!("unexpected command {:?}", other),
    }
}

#[test]
fn run_without_arguments_has_empty_args() {
    let cli = parse_args(argv(&["prog", "run", "boot"])).unwrap();
    match cli.cmd {
        Command::Run { phase, args } => {
            assert_eq!(phase, "boot");
            assert!(args.is_empty());
        }
        other => panic!("unexpected command {:?}", other),
    }
}

#[test]
fn run_without_separator_keeps_flags_verbatim() {
    let cli = parse_args(argv(&["prog", "--json", "run", "boot", "-x", "--", "y"])).unwrap();
    assert_eq!(cli.mode, OutputMode::Json);
    match cli.cmd {
        Command::Run { phase, args } => {
            assert_eq!(phase, "boot");
            assert_eq!(args, vec!["-x".to_string(), "--".to_string(), "y".to_string()]);
        }
        other => panic!("unexpected command {:?}", other),
    }
}

#[test]
fn run_without_phase_is_usage_error() {
    let err = parse_args(argv(&["prog", "run"])).unwrap_err();
    assert_eq!(err.0, exit_codes::USAGE);
    assert_eq!(err.1, "run requires <phase>");
}

#[test]
fn json_then_help_short_circuits() {
    let cli = parse_args(argv(&["prog", "--json", "-h", "--bogus", "frobnicate"])).unwrap();
    assert_eq!(cli.mode, OutputMode::Json);
    assert!(matches!(cli.cmd, Command::Help));
}

#[test]
fn long_help_flag_gives_help_in_text_mode() {
    let cli = parse_args(argv(&["prog", "--help", "env"])).unwrap();
    assert_eq!(cli.mode, OutputMode::Text);
    assert!(matches!(cli.cmd, Command::Help));
}

#[test]
fn unknown_command_is_usage_error() {
    let err = parse_args(argv(&["prog", "frobnicate"])).unwrap_err();
    assert_eq!(err.0, exit_codes::USAGE);
    assert!(err.1.contains("unknown command: frobnicate"));
}

#[test]
fn unknown_flag_is_usage_error() {
    let err = parse_args(argv(&["prog", "--verbose", "env"])).unwrap_err();
    assert_eq!(err.0, exit_codes::USAGE);
    assert_eq!(err.1, "unknown flag: --verbose");
}

#[test]
fn no_command_means_help() {
    let cli = parse_args(argv(&["prog"])).unwrap();
    assert!(matches!(cli.cmd, Command::Help));
    let cli = parse_args(argv(&["prog", "--json"])).unwrap();
    assert_eq!(cli.mode, OutputMode::Json);
    assert!(matches!(cli.cmd, Command::Help));
    let cli = parse_args(Vec::new()).unwrap();
    assert!(matches!(cli.cmd, Command::Help));
}

#[test]
fn double_dash_ends_flags() {
    let err = parse_args(argv(&["prog", "--", "--json"])).unwrap_err();
    assert_eq!(err.1, "unknown command: --json");
    let cli = parse_args(argv(&["prog", "--", "--version"])).unwrap();
    assert!(matches!(cli.cmd, Command::Version));
}

#[test]
fn simple_commands_and_synonyms() {
    assert!(matches!(parse_args(argv(&["p", "env"])).unwrap().cmd, Command::Env));
    assert!(matches!(parse_args(argv(&["p", "doctor"])).unwrap().cmd, Command::Doctor));
    assert!(matches!(parse_args(argv(&["p", "help"])).unwrap().cmd, Command::Help));
    assert!(matches!(parse_args(argv(&["p", "version"])).unwrap().cmd, Command::Version));
    for v in ["--version", "-V"] {
        assert!(matches!(parse_args(argv(&["p", "--", v])).unwrap().cmd, Command::Version));
        let err = parse_args(argv(&["p", v])).unwrap_err();
        assert_eq!(err.1, format!("unknown flag: {}", v));
    }
    assert!(matches!(parse_args(argv(&["p", "env", "extra"])).unwrap().cmd, Command::Env));
}
