use contrack::cli::{Cli, Commands, ConfigCommands, LoadoutCommands, QueryCommands};
use contrack::options::{parse_small_number, CliError};

#[test]
fn test_add_command_parsing() {
    let args = vec![
        "contrack",
        "add",
        "--repo-url",
        "https://github.com/test/repo",
        "--name",
        "Test Feature",
        "--overview",
        "Test overview",
        "--description",
        "Test description",
        "--key-commits",
        "abc123",
        "--related-commits",
        "def456",
        "--category",
        "Feature",
        "--priority",
        "5",
    ];

    let cli = Cli::try_parse_from(args).unwrap();
    match cli.command {
        Commands::Add {
            repo_url,
            name,
            overview,
            description,
            key_commits,
            related_commits,
            category,
            priority,
        } => {
            assert_eq!(repo_url, "https://github.com/test/repo");
            assert_eq!(name, "Test Feature");
            assert_eq!(overview, "Test overview");
            assert_eq!(description, "Test description");
            assert_eq!(key_commits, "abc123");
            assert_eq!(related_commits, Some("def456".to_string()));
            assert_eq!(category, "Feature");
            assert_eq!(priority, 5);
        }
        _ => panic!("Expected Add command"),
    }
}

#[test]
fn test_add_command_with_short_options() {
    let args = vec![
        "contrack",
        "add",
        "-r",
        "https://github.com/test/repo",
        "-n",
        "Test Feature",
        "-o",
        "Test overview",
        "-d",
        "Test description",
        "-k",
        "abc123",
        "--related-commits",
        "def456",
        "-c",
        "Feature",
        "-p",
        "5",
    ];

    let cli = Cli::try_parse_from(args).unwrap();
    match cli.command {
        Commands::Add { repo_url, .. } => {
            assert_eq!(repo_url, "https://github.com/test/repo");
        }
        _ => panic!("Expected Add command"),
    }
}

#[test]
fn add_defaults_category_and_priority() {
    let cli = Cli::try_parse_from(vec![
        "contrack", "add", "-r", "u", "-n", "n", "-o", "o", "-d", "d", "-k", "a1,b2",
    ])
    .unwrap();
    assert_eq!(
        cli.command,
        Commands::Add {
            repo_url: "u".to_string(),
            name: "n".to_string(),
            overview: "o".to_string(),
            description: "d".to_string(),
            key_commits: "a1,b2".to_string(),
            related_commits: None,
            category: "Feature".to_string(),
            priority: 5,
        }
    );
}

#[test]
fn option_value_may_follow_an_equals_sign() {
    let cli =
        Cli::try_parse_from(vec!["contrack", "generate", "--repo-url=https://x/y", "--author=Ann=B"])
            .unwrap();
    assert_eq!(
        cli.command,
        Commands::Generate {
            repo_url: "https://x/y".to_string(),
            output: "CONTRIBUTIONS.md".to_string(),
            author: Some("Ann=B".to_string()),
        }
    );
}

#[test]
fn missing_required_argument_is_named() {
    let r = Cli::try_parse_from(vec!["contrack", "init", "--org", "acme", "--name", "repo"]);
    assert_eq!(r, Err(CliError::MissingArgument("repo-url".to_string())));
    let r = Cli::try_parse_from(vec!["contrack", "init", "-r", "u", "--name", "repo"]);
    assert_eq!(r, Err(CliError::MissingArgument("org".to_string())));
}

#[test]
fn unknown_and_duplicate_options_are_refused() {
    let r = Cli::try_parse_from(vec!["contrack", "init", "--colour", "red"]);
    assert_eq!(r, Err(CliError::UnknownArgument("--colour".to_string())));
    let r = Cli::try_parse_from(vec!["contrack", "update", "-x"]);
    assert_eq!(r, Err(CliError::UnknownArgument("-x".to_string())));
    let r = Cli::try_parse_from(vec!["contrack", "update", "-r", "a", "--repo-path", "b"]);
    assert_eq!(r, Err(CliError::DuplicateArgument("repo-path".to_string())));
}

#[test]
fn option_without_value_is_refused() {
    let r = Cli::try_parse_from(vec!["contrack", "update", "--repo-path"]);
    assert_eq!(r, Err(CliError::MissingValue("repo-path".to_string())));
    let r = Cli::try_parse_from(vec!["contrack", "list", "--detailed=yes"]);
    assert_eq!(r, Err(CliError::UnexpectedValue("detailed".to_string())));
}

#[test]
fn priority_must_be_a_small_number() {
    let base = vec!["contrack", "add", "-r", "u", "-n", "n", "-o", "o", "-d", "d", "-k", "k", "-p"];
    let mut args = base.clone();
    args.push("256");
    assert_eq!(
        Cli::try_parse_from(args),
        Err(CliError::InvalidValue("priority".to_string(), "256".to_string()))
    );
    let mut args = base.clone();
    args.push("ten");
    assert_eq!(
        Cli::try_parse_from(args),
        Err(CliError::InvalidValue("priority".to_string(), "ten".to_string()))
    );
    let mut args = base.clone();
    args.push("255");
    match Cli::try_parse_from(args).unwrap().command {
        Commands::Add { priority, .. } => assert_eq!(priority, 255),
        _ => panic!("Expected Add command"),
    }
}

#[test]
fn small_numbers_are_read_digit_by_digit() {
    assert_eq!(parse_small_number("0"), Some(0));
    assert_eq!(parse_small_number("007"), Some(7));
    assert_eq!(parse_small_number("255"), Some(255));
    assert_eq!(parse_small_number("256"), None);
    assert_eq!(parse_small_number("99999999999999999999"), None);
    assert_eq!(parse_small_number(""), None);
    assert_eq!(parse_small_number("-1"), None);
    assert_eq!(parse_small_number("1 "), None);
}

#[test]
fn commands_without_arguments() {
    assert_eq!(
        Cli::try_parse_from(vec!["contrack", "locations"]).unwrap().command,
        Commands::Locations
    );
    assert_eq!(Cli::try_parse_from(vec!["contrack", "ai"]).unwrap().command, Commands::Ai);
    assert_eq!(
        Cli::try_parse_from(vec!["contrack", "ai", "extra"]),
        Err(CliError::UnexpectedArgument("extra".to_string()))
    );
    assert_eq!(Cli::try_parse_from(vec!["contrack"]), Err(CliError::MissingCommand));
    assert_eq!(Cli::try_parse_from(vec![]), Err(CliError::MissingCommand));
    assert_eq!(
        Cli::try_parse_from(vec!["contrack", "frobnicate"]),
        Err(CliError::UnknownCommand("frobnicate".to_string()))
    );
    assert_eq!(Cli::try_parse_from(vec!["contrack", "--help"]), Err(CliError::HelpRequested));
    assert_eq!(Cli::try_parse_from(vec!["contrack", "-V"]), Err(CliError::VersionRequested));
}

#[test]
fn list_takes_a_flag() {
    assert_eq!(
        Cli::try_parse_from(vec!["contrack", "list"]).unwrap().command,
        Commands::List { detailed: false }
    );
    assert_eq!(
        Cli::try_parse_from(vec!["contrack", "list", "-d"]).unwrap().command,
        Commands::List { detailed: true }
    );
    assert_eq!(
        Cli::try_parse_from(vec!["contrack", "list", "--detailed"]).unwrap().command,
        Commands::List { detailed: true }
    );
}

#[test]
fn query_subcommands_take_positional_arguments() {
    assert_eq!(
        Cli::try_parse_from(vec!["contrack", "query", "contributions", "https://r"])
            .unwrap()
            .command,
        Commands::Query {
            subcommand: QueryCommands::Contributions { repo_url: "https://r".to_string() }
        }
    );
    assert_eq!(
        Cli::try_parse_from(vec!["contrack", "query", "commits", "https://r", "Feature A"])
            .unwrap()
            .command,
        Commands::Query {
            subcommand: QueryCommands::Commits {
                repo_url: "https://r".to_string(),
                name: "Feature A".to_string()
            }
        }
    );
    assert_eq!(
        Cli::try_parse_from(vec!["contrack", "query", "contribution", "https://r"]),
        Err(CliError::MissingArgument("name".to_string()))
    );
    assert_eq!(
        Cli::try_parse_from(vec!["contrack", "query", "stats"]).unwrap().command,
        Commands::Query { subcommand: QueryCommands::Stats }
    );
    assert_eq!(
        Cli::try_parse_from(vec!["contrack", "query", "stats", "x"]),
        Err(CliError::UnexpectedArgument("x".to_string()))
    );
    assert_eq!(Cli::try_parse_from(vec!["contrack", "query"]), Err(CliError::MissingCommand));
}

#[test]
fn config_and_loadout_subcommands() {
    assert_eq!(
        Cli::try_parse_from(vec!["contrack", "config", "add-org", "-i", "org1", "-n", "Org One"])
            .unwrap()
            .command,
        Commands::Config {
            subcommand: ConfigCommands::AddOrg {
                id: "org1".to_string(),
                name: "Org One".to_string(),
                description: None
            }
        }
    );
    assert_eq!(
        Cli::try_parse_from(vec![
            "contrack", "config", "add-repo", "-u", "https://r", "-o", "org1", "-n", "r", "-d", "desc",
        ])
        .unwrap()
        .command,
        Commands::Config {
            subcommand: ConfigCommands::AddRepo {
                url: "https://r".to_string(),
                org: "org1".to_string(),
                name: "r".to_string(),
                description: Some("desc".to_string())
            }
        }
    );
    assert_eq!(
        Cli::try_parse_from(vec!["contrack", "config", "sync"]).unwrap().command,
        Commands::Config { subcommand: ConfigCommands::Sync }
    );
    assert_eq!(
        Cli::try_parse_from(vec!["contrack", "loadout", "save", "work"]).unwrap().command,
        Commands::Loadout { subcommand: LoadoutCommands::Save { name: "work".to_string() } }
    );
    assert_eq!(
        Cli::try_parse_from(vec!["contrack", "loadout", "reload-default"]).unwrap().command,
        Commands::Loadout { subcommand: LoadoutCommands::ReloadDefault }
    );
    assert_eq!(
        Cli::try_parse_from(vec!["contrack", "loadout", "delete"]),
        Err(CliError::MissingArgument("name".to_string()))
    );
    assert_eq!(
        Cli::try_parse_from(vec!["contrack", "loadout", "rename", "a"]),
        Err(CliError::UnknownCommand("rename".to_string()))
    );
}

#[test]
fn cli_errors_have_messages() {
    assert_eq!(
        CliError::MissingArgument("name".to_string()).message(),
        "the argument 'name' is required"
    );
    assert_eq!(
        CliError::InvalidValue("priority".to_string(), "x".to_string()).message(),
        "invalid value 'x' for '--priority'"
    );
    assert_eq!(
        CliError::DuplicateArgument("org".to_string()).message(),
        "the argument '--org' cannot be used multiple times"
    );
}
