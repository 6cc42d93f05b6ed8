use riced::cli::{
    parse, queue_open_settings, take_queued_command, Cli, CliError, Commands, QueuedCommand,
};

fn args(v: &[&str]) -> Vec<String> {
    v.iter().map(|s| s.to_string()).collect()
}

#[test]
fn parses_open_settings_and_alias() {
    assert_eq!(
        Cli::try_parse_from(&args(&["riced", "open-settings"]))
            .unwrap()
            .command,
        Some(Commands::OpenSettings)
    );
    assert_eq!(
        Cli::try_parse_from(&args(&["riced", "settings"])).unwrap().command,
        Some(Commands::OpenSettings)
    );
    assert_eq!(Cli::try_parse_from(&args(&["riced"])).unwrap().command, None);
}

#[test]
fn rejected_arguments_are_located() {
    assert_eq!(parse(&args(&["riced", "bogus"])), Err(CliError { arg_index: 1 }));
    assert_eq!(parse(&args(&["riced", "--help"])), Err(CliError { arg_index: 1 }));
    assert_eq!(parse(&args(&["riced", "settings", "x"])), Err(CliError { arg_index: 2 }));
    assert_eq!(parse(&args(&["riced", "settings", "--", "x"])), Err(CliError { arg_index: 3 }));
    assert_eq!(parse(&args(&["riced", "--", "settings"])), Err(CliError { arg_index: 2 }));
    assert_eq!(parse(&args(&["riced", "--"])), Ok(None));
    assert_eq!(parse(&args(&["riced", "open-settings", "--"])), Ok(Some(Commands::OpenSettings)));
    assert_eq!(parse(&args(&[])), Ok(None));
}

fn clap_command() -> clap::Command {
    clap::Command::new("riced")
        .about("Riced Wayland shell")
        .version("0.1.0")
        .subcommand(
            clap::Command::new("open-settings")
                .about("Ask the running daemon to open the Settings panel")
                .alias("settings"),
        )
}

#[test]
fn grammar_agrees_with_clap() {
    let cases: Vec<Vec<&str>> = vec![
        vec![],
        vec!["riced"],
        vec!["riced", "open-settings"],
        vec!["riced", "settings"],
        vec!["riced", "--"],
        vec!["riced", "--", "--"],
        vec!["riced", "--", "settings"],
        vec!["riced", "open-settings", "--"],
        vec!["riced", "open-settings", "--", "--"],
        vec!["riced", "settings", "x"],
        vec!["riced", "open-settings", "-h"],
        vec!["riced", "help"],
        vec!["riced", "-h"],
        vec!["riced", "--help"],
        vec!["riced", "-V"],
        vec!["riced", "--version"],
        vec!["riced", "open"],
        vec!["riced", ""],
        vec!["riced", "-"],
        vec!["riced", "Settings"],
        vec!["riced", "settings", "settings"],
    ];
    for case in cases {
        let ours = parse(&args(&case));
        let theirs = clap_command().try_get_matches_from(case.clone());
        match (&ours, &theirs) {
            (Ok(cmd), Ok(m)) => {
                let name = m.subcommand_name();
                assert_eq!(cmd.is_some(), name == Some("open-settings"), "{case:?}");
                assert_eq!(cmd.is_none(), name.is_none(), "{case:?}");
            }
            (Err(_), Err(_)) => {}
            _ => panic!("disagree on {case:?}: {ours:?} vs {:?}", theirs.map(|_| ())),
        }
    }
}

#[test]
fn queued_line_is_taken_back() {
    let content = queue_open_settings();
    assert_eq!(content, "open-settings\n");
    assert_eq!(take_queued_command(&content), Some(QueuedCommand::OpenSettings));
    assert_eq!(QueuedCommand::OpenSettings.serialize(), "open-settings");
    assert_eq!(QueuedCommand::OpenSettings.line(), "open-settings\n");
}

#[test]
fn unknown_word_is_dropped() {
    assert_eq!(take_queued_command("bogus\n"), None);
    assert_eq!(take_queued_command(""), None);
    assert_eq!(take_queued_command("\nopen-settings\n"), None);
    assert_eq!(take_queued_command("open-settings-now\n"), None);
}

#[test]
fn first_line_is_trimmed() {
    assert_eq!(take_queued_command("  open-settings\r\n"), Some(QueuedCommand::OpenSettings));
    assert_eq!(take_queued_command("\topen-settings \u{3000}"), Some(QueuedCommand::OpenSettings));
    assert_eq!(take_queued_command("open-settings\nbogus\n"), Some(QueuedCommand::OpenSettings));
    assert_eq!(take_queued_command("open-settings"), Some(QueuedCommand::OpenSettings));
    assert_eq!(QueuedCommand::parse(" open-settings\n"), Some(QueuedCommand::OpenSettings));
    assert_eq!(QueuedCommand::parse("open settings"), None);
}
