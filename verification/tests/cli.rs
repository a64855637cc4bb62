use modelwire_server::cli::{
    args_of, command_of, parse_command, try_parse_from, CliErrorKind, Commands,
};

fn words(words: &[&str]) -> Vec<String> {
    words.iter().map(|word| word.to_string()).collect()
}

#[test]
fn cli_accepts_config_before_serve_subcommand() {
    let args = try_parse_from(words(&["modelwire", "--config", "modelwire.toml", "serve"]))
        .expect("CLI should accept config before serve subcommand");
    assert_eq!(args.config, "modelwire.toml");
    assert!(matches!(args.command, Some(Commands::Serve)));
}

#[test]
fn cli_defaults_to_modelwire_toml() {
    let args = try_parse_from(words(&["modelwire", "serve"]))
        .expect("CLI should parse serve with default config");
    assert_eq!(args.config, "modelwire.toml");
    assert!(matches!(args.command, Some(Commands::Serve)));
}

#[test]
fn cli_help_flag_parses_as_help_display() {
    let err = try_parse_from(words(&["modelwire", "--help"]))
        .expect_err("help flag should short-circuit parse as display help");
    assert_eq!(err.kind, CliErrorKind::DisplayHelp);
    assert!(err.text.contains("A Codex-first Responses API relay"));
    assert!(err.text.contains("export-config"));
}

#[test]
fn cli_takes_a_short_option_and_every_subcommand() {
    let args = try_parse_from(words(&["modelwire", "-c", "other.toml", "migrate"])).unwrap();
    assert_eq!(args.config, "other.toml");
    assert_eq!(args.command, Some(Commands::Migrate));
    let args = try_parse_from(words(&["modelwire", "export-config"])).unwrap();
    assert_eq!(args.command, Some(Commands::ExportConfig));
}

#[test]
fn cli_serves_where_nothing_else_is_asked_for() {
    let args = try_parse_from(words(&["modelwire"])).unwrap();
    assert_eq!(args.command, None);
    assert_eq!(command_of(&args), Commands::Serve);
    let args = args_of("x.toml".to_string(), Some("migrate".to_string()));
    assert_eq!(args.config, "x.toml");
    assert_eq!(command_of(&args), Commands::Migrate);
}

#[test]
fn cli_rejects_what_it_does_not_know() {
    let err = try_parse_from(words(&["modelwire", "dance"])).unwrap_err();
    assert_eq!(err.kind, CliErrorKind::Usage);
    let err = try_parse_from(words(&["modelwire", "--config"])).unwrap_err();
    assert_eq!(err.kind, CliErrorKind::Usage);
    assert_eq!(parse_command("dance"), None);
}
