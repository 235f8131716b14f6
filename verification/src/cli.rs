//! The command line: the command that the arguments ask for.
//!
//! After the program's name comes the name of a command, for `query`,
//! `config` and `loadout` followed by the name of a subcommand, and then
//! the options and the positional arguments of the command.

use vstd::prelude::*;
use crate::options::{
    bind, bound_from, parse_small_number, rule_views, small_number, value_of, Bound, BoundView,
    CliError, CliErrorView, OptionRule, OptionRuleView,
};
use crate::text::{opt_text, texts};

verus! {

/// What is asked of the store.
#[derive(Debug, PartialEq, Eq)]
pub enum QueryCommands {
    /// List the contributions of a repository.
    Contributions { repo_url: String },
    /// Report on one contribution.
    Contribution { repo_url: String, name: String },
    /// List the commits of one contribution.
    Commits { repo_url: String, name: String },
    /// Report how many rows the store holds.
    Stats,
}

/// The view of [`QueryCommands`]: the same, with every string as a `Seq<char>`.
pub enum QueryCommandsView {
    Contributions { repo_url: Seq<char> },
    Contribution { repo_url: Seq<char>, name: Seq<char> },
    Commits { repo_url: Seq<char>, name: Seq<char> },
    Stats,
}

impl View for QueryCommands {
    type V = QueryCommandsView;

    open spec fn view(&self) -> QueryCommandsView {
        match self {
            QueryCommands::Contributions { repo_url } => QueryCommandsView::Contributions {
                repo_url: repo_url@,
            },
            QueryCommands::Contribution { repo_url, name } => QueryCommandsView::Contribution {
                repo_url: repo_url@,
                name: name@,
            },
            QueryCommands::Commits { repo_url, name } => QueryCommandsView::Commits {
                repo_url: repo_url@,
                name: name@,
            },
            QueryCommands::Stats => QueryCommandsView::Stats,
        }
    }
}

/// What is done with the configuration.
#[derive(Debug, PartialEq, Eq)]
pub enum ConfigCommands {
    /// Write what the store says into the configuration.
    Sync,
    /// Put what the configuration says into the store.
    Load,
    /// Add an organization.
    AddOrg { id: String, name: String, description: Option<String> },
    /// Add a repository.
    AddRepo { url: String, org: String, name: String, description: Option<String> },
}

/// The view of [`ConfigCommands`]: the same, with every string as a `Seq<char>`.
pub enum ConfigCommandsView {
    Sync,
    Load,
    AddOrg { id: Seq<char>, name: Seq<char>, description: Option<Seq<char>> },
    AddRepo { url: Seq<char>, org: Seq<char>, name: Seq<char>, description: Option<Seq<char>> },
}

impl View for ConfigCommands {
    type V = ConfigCommandsView;

    open spec fn view(&self) -> ConfigCommandsView {
        match self {
            ConfigCommands::Sync => ConfigCommandsView::Sync,
            ConfigCommands::Load => ConfigCommandsView::Load,
            ConfigCommands::AddOrg { id, name, description } => ConfigCommandsView::AddOrg {
                id: id@,
                name: name@,
                description: opt_text(*description),
            },
            ConfigCommands::AddRepo { url, org, name, description } => ConfigCommandsView::AddRepo {
                url: url@,
                org: org@,
                name: name@,
                description: opt_text(*description),
            },
        }
    }
}

/// What is done with loadouts.
#[derive(Debug, PartialEq, Eq)]
pub enum LoadoutCommands {
    /// List the loadouts.
    List,
    /// Make a loadout that holds nothing.
    Create { name: String },
    /// Keep only what a loadout holds.
    Load { name: String },
    /// Make a loadout hold all that is stored.
    Save { name: String },
    /// Delete a loadout.
    Delete { name: String },
    /// Load the loadout named `default`.
    ReloadDefault,
}

/// The view of [`LoadoutCommands`]: the same, with every string as a `Seq<char>`.
pub enum LoadoutCommandsView {
    List,
    Create { name: Seq<char> },
    Load { name: Seq<char> },
    Save { name: Seq<char> },
    Delete { name: Seq<char> },
    ReloadDefault,
}

impl View for LoadoutCommands {
    type V = LoadoutCommandsView;

    open spec fn view(&self) -> LoadoutCommandsView {
        match self {
            LoadoutCommands::List => LoadoutCommandsView::List,
            LoadoutCommands::Create { name } => LoadoutCommandsView::Create { name: name@ },
            LoadoutCommands::Load { name } => LoadoutCommandsView::Load { name: name@ },
            LoadoutCommands::Save { name } => LoadoutCommandsView::Save { name: name@ },
            LoadoutCommands::Delete { name } => LoadoutCommandsView::Delete { name: name@ },
            LoadoutCommands::ReloadDefault => LoadoutCommandsView::ReloadDefault,
        }
    }
}

/// The commands.
#[allow(inconsistent_fields)]
#[derive(Debug, PartialEq, Eq)]
pub enum Commands {
    /// Register a repository.
    Init { repo_url: String, org: String, name: String, description: Option<String> },
    /// Store a contribution.
    Add {
        repo_url: String,
        name: String,
        overview: String,
        description: String,
        key_commits: String,
        related_commits: Option<String>,
        category: String,
        priority: u8,
    },
    /// Update the store from the history of a working copy.
    Update { repo_path: Option<String> },
    /// Make the document of a repository.
    Generate { repo_url: String, output: String, author: Option<String> },
    /// Ask the store.
    Query { subcommand: QueryCommands },
    /// List the repositories.
    List { detailed: bool },
    /// Report where the store is kept.
    Locations,
    /// Work with the configuration.
    Config { subcommand: ConfigCommands },
    /// Work with loadouts.
    Loadout { subcommand: LoadoutCommands },
    /// Print the briefing for an agent.
    Ai,
}

/// The view of [`Commands`]: the same, with every string as a `Seq<char>`.
#[allow(inconsistent_fields)]
pub enum CommandsView {
    Init { repo_url: Seq<char>, org: Seq<char>, name: Seq<char>, description: Option<Seq<char>> },
    Add {
        repo_url: Seq<char>,
        name: Seq<char>,
        overview: Seq<char>,
        description: Seq<char>,
        key_commits: Seq<char>,
        related_commits: Option<Seq<char>>,
        category: Seq<char>,
        priority: u8,
    },
    Update { repo_path: Option<Seq<char>> },
    Generate { repo_url: Seq<char>, output: Seq<char>, author: Option<Seq<char>> },
    Query { subcommand: QueryCommandsView },
    List { detailed: bool },
    Locations,
    Config { subcommand: ConfigCommandsView },
    Loadout { subcommand: LoadoutCommandsView },
    Ai,
}

impl View for Commands {
    type V = CommandsView;

    open spec fn view(&self) -> CommandsView {
        match self {
            Commands::Init { repo_url, org, name, description } => CommandsView::Init {
                repo_url: repo_url@,
                org: org@,
                name: name@,
                description: opt_text(*description),
            },
            Commands::Add {
                repo_url,
                name,
                overview,
                description,
                key_commits,
                related_commits,
                category,
                priority,
            } => CommandsView::Add {
                repo_url: repo_url@,
                name: name@,
                overview: overview@,
                description: description@,
                key_commits: key_commits@,
                related_commits: opt_text(*related_commits),
                category: category@,
                priority: *priority,
            },
            Commands::Update { repo_path } => CommandsView::Update {
                repo_path: opt_text(*repo_path),
            },
            Commands::Generate { repo_url, output, author } => CommandsView::Generate {
                repo_url: repo_url@,
                output: output@,
                author: opt_text(*author),
            },
            Commands::Query { subcommand } => CommandsView::Query { subcommand: subcommand@ },
            Commands::List { detailed } => CommandsView::List { detailed: *detailed },
            Commands::Locations => CommandsView::Locations,
            Commands::Config { subcommand } => CommandsView::Config { subcommand: subcommand@ },
            Commands::Loadout { subcommand } => CommandsView::Loadout { subcommand: subcommand@ },
            Commands::Ai => CommandsView::Ai,
        }
    }
}

/// How the program is used.
pub const USAGE: &'static str =
    "A CLI tool for tracking and documenting code contributions\n\nUsage: contrack <COMMAND>\n\nCommands:\n  init       Initialize a new contributions database\n             -r, --repo-url <URL> -o, --org <ORG> -n, --name <NAME> [-d, --description <TEXT>]\n  add        Add a new contribution\n             -r, --repo-url <URL> -n, --name <NAME> -o, --overview <TEXT> -d, --description <TEXT>\n             -k, --key-commits <LIST> [--related-commits <LIST>] [-c, --category <TEXT>] [-p, --priority <0-255>]\n  update     Update commit details from git repository\n             [-r, --repo-path <PATH>]\n  generate   Generate contributions markdown file\n             -r, --repo-url <URL> [-o, --output <PATH>] [-a, --author <NAME>]\n  query      Query the database\n             contributions <URL> | contribution <URL> <NAME> | commits <URL> <NAME> | stats\n  list       List repositories in the database\n             [-d, --detailed]\n  locations  List all known contrack database locations\n  config     Manage configuration file\n             sync | load | add-org -i <ID> -n <NAME> [-d <TEXT>] | add-repo -u <URL> -o <ORG> -n <NAME> [-d <TEXT>]\n  loadout    Manage prompt and rule loadouts\n             list | create <NAME> | load <NAME> | save <NAME> | delete <NAME> | reload-default\n  ai         Output AI agent configuration prompt\n";

/// What a command line asks for.
#[derive(Debug, PartialEq, Eq)]
pub struct Cli {
    pub command: Commands,
}

/// An option that takes a value.
pub open spec fn option(name: Seq<char>, short: Option<char>) -> OptionRuleView {
    OptionRuleView { name: name, short: short, takes_value: true }
}

/// The options of `init`.
pub open spec fn init_rules() -> Seq<OptionRuleView> {
    seq![
        option("repo-url"@, Some('r')),
        option("org"@, Some('o')),
        option("name"@, Some('n')),
        option("description"@, Some('d')),
    ]
}

/// The options of `add`.
pub open spec fn add_rules() -> Seq<OptionRuleView> {
    seq![
        option("repo-url"@, Some('r')),
        option("name"@, Some('n')),
        option("overview"@, Some('o')),
        option("description"@, Some('d')),
        option("key-commits"@, Some('k')),
        option("related-commits"@, None),
        option("category"@, Some('c')),
        option("priority"@, Some('p')),
    ]
}

/// The options of `update`.
pub open spec fn update_rules() -> Seq<OptionRuleView> {
    seq![option("repo-path"@, Some('r'))]
}

/// The options of `generate`.
pub open spec fn generate_rules() -> Seq<OptionRuleView> {
    seq![
        option("repo-url"@, Some('r')),
        option("output"@, Some('o')),
        option("author"@, Some('a')),
    ]
}

/// The options of `list`.
pub open spec fn list_rules() -> Seq<OptionRuleView> {
    seq![OptionRuleView { name: "detailed"@, short: Some('d'), takes_value: false }]
}

/// The options of `config add-org`.
pub open spec fn add_org_rules() -> Seq<OptionRuleView> {
    seq![
        option("id"@, Some('i')),
        option("name"@, Some('n')),
        option("description"@, Some('d')),
    ]
}

/// The options of `config add-repo`.
pub open spec fn add_repo_rules() -> Seq<OptionRuleView> {
    seq![
        option("url"@, Some('u')),
        option("org"@, Some('o')),
        option("name"@, Some('n')),
        option("description"@, Some('d')),
    ]
}

/// What the arguments `args` from the place `from` on give to a command
/// with the options `rules`.
pub open spec fn bound(rules: Seq<OptionRuleView>, args: Seq<Seq<char>>, from: int) -> Result<
    BoundView,
    CliErrorView,
> {
    bound_from(rules, args, from, BoundView { values: Seq::empty(), positionals: Seq::empty() })
}

/// A command that takes neither options nor positional arguments.
pub open spec fn plain_of(b: Result<BoundView, CliErrorView>, command: CommandsView) -> Result<
    CommandsView,
    CliErrorView,
> {
    match b {
        Err(e) => Err(e),
        Ok(b) => if b.positionals.len() > 0 {
            Err(CliErrorView::UnexpectedArgument(b.positionals[0]))
        } else {
            Ok(command)
        },
    }
}

/// `init` needs the URL, the organization and the name of the repository.
pub open spec fn init_of(b: Result<BoundView, CliErrorView>) -> Result<CommandsView, CliErrorView> {
    match b {
        Err(e) => Err(e),
        Ok(b) => if b.positionals.len() > 0 {
            Err(CliErrorView::UnexpectedArgument(b.positionals[0]))
        } else if value_of(b, "repo-url"@) is None {
            Err(CliErrorView::MissingArgument("repo-url"@))
        } else if value_of(b, "org"@) is None {
            Err(CliErrorView::MissingArgument("org"@))
        } else if value_of(b, "name"@) is None {
            Err(CliErrorView::MissingArgument("name"@))
        } else {
            Ok(
                CommandsView::Init {
                    repo_url: value_of(b, "repo-url"@)->0,
                    org: value_of(b, "org"@)->0,
                    name: value_of(b, "name"@)->0,
                    description: value_of(b, "description"@),
                },
            )
        },
    }
}

/// `add` needs the URL of the repository, and name, overview,
/// description and key commits of the contribution. The category is
/// `Feature` and the priority 5 where they are not given.
pub open spec fn add_of(b: Result<BoundView, CliErrorView>) -> Result<CommandsView, CliErrorView> {
    match b {
        Err(e) => Err(e),
        Ok(b) => if b.positionals.len() > 0 {
            Err(CliErrorView::UnexpectedArgument(b.positionals[0]))
        } else if value_of(b, "repo-url"@) is None {
            Err(CliErrorView::MissingArgument("repo-url"@))
        } else if value_of(b, "name"@) is None {
            Err(CliErrorView::MissingArgument("name"@))
        } else if value_of(b, "overview"@) is None {
            Err(CliErrorView::MissingArgument("overview"@))
        } else if value_of(b, "description"@) is None {
            Err(CliErrorView::MissingArgument("description"@))
        } else if value_of(b, "key-commits"@) is None {
            Err(CliErrorView::MissingArgument("key-commits"@))
        } else if value_of(b, "priority"@) is Some && small_number(value_of(b, "priority"@)->0)
            is None {
            Err(CliErrorView::InvalidValue("priority"@, value_of(b, "priority"@)->0))
        } else {
            Ok(
                CommandsView::Add {
                    repo_url: value_of(b, "repo-url"@)->0,
                    name: value_of(b, "name"@)->0,
                    overview: value_of(b, "overview"@)->0,
                    description: value_of(b, "description"@)->0,
                    key_commits: value_of(b, "key-commits"@)->0,
                    related_commits: value_of(b, "related-commits"@),
                    category: match value_of(b, "category"@) {
                        Some(c) => c,
                        None => "Feature"@,
                    },
                    priority: match value_of(b, "priority"@) {
                        Some(p) => small_number(p)->0,
                        None => 5u8,
                    },
                },
            )
        },
    }
}

/// `update` may name the path of the working copy.
pub open spec fn update_of(b: Result<BoundView, CliErrorView>) -> Result<
    CommandsView,
    CliErrorView,
> {
    match b {
        Err(e) => Err(e),
        Ok(b) => if b.positionals.len() > 0 {
            Err(CliErrorView::UnexpectedArgument(b.positionals[0]))
        } else {
            Ok(CommandsView::Update { repo_path: value_of(b, "repo-path"@) })
        },
    }
}

/// `generate` needs the URL of the repository. The document goes to
/// `CONTRIBUTIONS.md` where no output is given.
pub open spec fn generate_of(b: Result<BoundView, CliErrorView>) -> Result<
    CommandsView,
    CliErrorView,
> {
    match b {
        Err(e) => Err(e),
        Ok(b) => if b.positionals.len() > 0 {
            Err(CliErrorView::UnexpectedArgument(b.positionals[0]))
        } else if value_of(b, "repo-url"@) is None {
            Err(CliErrorView::MissingArgument("repo-url"@))
        } else {
            Ok(
                CommandsView::Generate {
                    repo_url: value_of(b, "repo-url"@)->0,
                    output: match value_of(b, "output"@) {
                        Some(o) => o,
                        None => "CONTRIBUTIONS.md"@,
                    },
                    author: value_of(b, "author"@),
                },
            )
        },
    }
}

/// `list` may ask for details.
pub open spec fn list_of(b: Result<BoundView, CliErrorView>) -> Result<CommandsView, CliErrorView> {
    match b {
        Err(e) => Err(e),
        Ok(b) => if b.positionals.len() > 0 {
            Err(CliErrorView::UnexpectedArgument(b.positionals[0]))
        } else {
            Ok(CommandsView::List { detailed: value_of(b, "detailed"@) is Some })
        },
    }
}

/// The positional arguments of a subcommand that takes `wanted` of them
/// and no options: the first missing one is named by `first` or `second`.
pub open spec fn positionals_of(
    b: Result<BoundView, CliErrorView>,
    wanted: int,
    first: Seq<char>,
    second: Seq<char>,
) -> Result<Seq<Seq<char>>, CliErrorView> {
    match b {
        Err(e) => Err(e),
        Ok(b) => if b.positionals.len() > wanted {
            Err(CliErrorView::UnexpectedArgument(b.positionals[wanted]))
        } else if b.positionals.len() == 0 && wanted > 0 {
            Err(CliErrorView::MissingArgument(first))
        } else if b.positionals.len() == 1 && wanted > 1 {
            Err(CliErrorView::MissingArgument(second))
        } else {
            Ok(b.positionals)
        },
    }
}

/// The subcommand of `query` that `args` ask for.
pub open spec fn query_of(args: Seq<Seq<char>>) -> Result<QueryCommandsView, CliErrorView> {
    if args.len() < 3 {
        Err(CliErrorView::MissingCommand)
    } else if args[2] == "contributions"@ {
        match positionals_of(bound(Seq::empty(), args, 3), 1, "repo-url"@, "name"@) {
            Err(e) => Err(e),
            Ok(p) => Ok(QueryCommandsView::Contributions { repo_url: p[0] }),
        }
    } else if args[2] == "contribution"@ {
        match positionals_of(bound(Seq::empty(), args, 3), 2, "repo-url"@, "name"@) {
            Err(e) => Err(e),
            Ok(p) => Ok(QueryCommandsView::Contribution { repo_url: p[0], name: p[1] }),
        }
    } else if args[2] == "commits"@ {
        match positionals_of(bound(Seq::empty(), args, 3), 2, "repo-url"@, "name"@) {
            Err(e) => Err(e),
            Ok(p) => Ok(QueryCommandsView::Commits { repo_url: p[0], name: p[1] }),
        }
    } else if args[2] == "stats"@ {
        match positionals_of(bound(Seq::empty(), args, 3), 0, "repo-url"@, "name"@) {
            Err(e) => Err(e),
            Ok(p) => Ok(QueryCommandsView::Stats),
        }
    } else {
        Err(CliErrorView::UnknownCommand(args[2]))
    }
}

/// `config add-org` needs the identifier and the name of the
/// organization.
pub open spec fn add_org_of(b: Result<BoundView, CliErrorView>) -> Result<
    ConfigCommandsView,
    CliErrorView,
> {
    match b {
        Err(e) => Err(e),
        Ok(b) => if b.positionals.len() > 0 {
            Err(CliErrorView::UnexpectedArgument(b.positionals[0]))
        } else if value_of(b, "id"@) is None {
            Err(CliErrorView::MissingArgument("id"@))
        } else if value_of(b, "name"@) is None {
            Err(CliErrorView::MissingArgument("name"@))
        } else {
            Ok(
                ConfigCommandsView::AddOrg {
                    id: value_of(b, "id"@)->0,
                    name: value_of(b, "name"@)->0,
                    description: value_of(b, "description"@),
                },
            )
        },
    }
}

/// `config add-repo` needs the URL, the organization and the name of the
/// repository.
pub open spec fn add_repo_of(b: Result<BoundView, CliErrorView>) -> Result<
    ConfigCommandsView,
    CliErrorView,
> {
    match b {
        Err(e) => Err(e),
        Ok(b) => if b.positionals.len() > 0 {
            Err(CliErrorView::UnexpectedArgument(b.positionals[0]))
        } else if value_of(b, "url"@) is None {
            Err(CliErrorView::MissingArgument("url"@))
        } else if value_of(b, "org"@) is None {
            Err(CliErrorView::MissingArgument("org"@))
        } else if value_of(b, "name"@) is None {
            Err(CliErrorView::MissingArgument("name"@))
        } else {
            Ok(
                ConfigCommandsView::AddRepo {
                    url: value_of(b, "url"@)->0,
                    org: value_of(b, "org"@)->0,
                    name: value_of(b, "name"@)->0,
                    description: value_of(b, "description"@),
                },
            )
        },
    }
}

/// The subcommand of `config` that `args` ask for.
pub open spec fn config_of(args: Seq<Seq<char>>) -> Result<ConfigCommandsView, CliErrorView> {
    if args.len() < 3 {
        Err(CliErrorView::MissingCommand)
    } else if args[2] == "sync"@ {
        match positionals_of(bound(Seq::empty(), args, 3), 0, "id"@, "name"@) {
            Err(e) => Err(e),
            Ok(p) => Ok(ConfigCommandsView::Sync),
        }
    } else if args[2] == "load"@ {
        match positionals_of(bound(Seq::empty(), args, 3), 0, "id"@, "name"@) {
            Err(e) => Err(e),
            Ok(p) => Ok(ConfigCommandsView::Load),
        }
    } else if args[2] == "add-org"@ {
        add_org_of(bound(add_org_rules(), args, 3))
    } else if args[2] == "add-repo"@ {
        add_repo_of(bound(add_repo_rules(), args, 3))
    } else {
        Err(CliErrorView::UnknownCommand(args[2]))
    }
}

/// The subcommand of `loadout` that `args` ask for.
pub open spec fn loadout_of(args: Seq<Seq<char>>) -> Result<LoadoutCommandsView, CliErrorView> {
    if args.len() < 3 {
        Err(CliErrorView::MissingCommand)
    } else if args[2] == "list"@ {
        match positionals_of(bound(Seq::empty(), args, 3), 0, "name"@, "name"@) {
            Err(e) => Err(e),
            Ok(p) => Ok(LoadoutCommandsView::List),
        }
    } else if args[2] == "create"@ {
        match positionals_of(bound(Seq::empty(), args, 3), 1, "name"@, "name"@) {
            Err(e) => Err(e),
            Ok(p) => Ok(LoadoutCommandsView::Create { name: p[0] }),
        }
    } else if args[2] == "load"@ {
        match positionals_of(bound(Seq::empty(), args, 3), 1, "name"@, "name"@) {
            Err(e) => Err(e),
            Ok(p) => Ok(LoadoutCommandsView::Load { name: p[0] }),
        }
    } else if args[2] == "save"@ {
        match positionals_of(bound(Seq::empty(), args, 3), 1, "name"@, "name"@) {
            Err(e) => Err(e),
            Ok(p) => Ok(LoadoutCommandsView::Save { name: p[0] }),
        }
    } else if args[2] == "delete"@ {
        match positionals_of(bound(Seq::empty(), args, 3), 1, "name"@, "name"@) {
            Err(e) => Err(e),
            Ok(p) => Ok(LoadoutCommandsView::Delete { name: p[0] }),
        }
    } else if args[2] == "reload-default"@ {
        match positionals_of(bound(Seq::empty(), args, 3), 0, "name"@, "name"@) {
            Err(e) => Err(e),
            Ok(p) => Ok(LoadoutCommandsView::ReloadDefault),
        }
    } else {
        Err(CliErrorView::UnknownCommand(args[2]))
    }
}

/// The command that the arguments `args` ask for, the program's name
/// first among them.
pub open spec fn command_of(args: Seq<Seq<char>>) -> Result<CommandsView, CliErrorView> {
    if args.len() < 2 {
        Err(CliErrorView::MissingCommand)
    } else if args[1] == "--help"@ || args[1] == "-h"@ || args[1] == "help"@ {
        Err(CliErrorView::HelpRequested)
    } else if args[1] == "--version"@ || args[1] == "-V"@ {
        Err(CliErrorView::VersionRequested)
    } else if args[1] == "init"@ {
        init_of(bound(init_rules(), args, 2))
    } else if args[1] == "add"@ {
        add_of(bound(add_rules(), args, 2))
    } else if args[1] == "update"@ {
        update_of(bound(update_rules(), args, 2))
    } else if args[1] == "generate"@ {
        generate_of(bound(generate_rules(), args, 2))
    } else if args[1] == "query"@ {
        match query_of(args) {
            Err(e) => Err(e),
            Ok(q) => Ok(CommandsView::Query { subcommand: q }),
        }
    } else if args[1] == "list"@ {
        list_of(bound(list_rules(), args, 2))
    } else if args[1] == "locations"@ {
        plain_of(bound(Seq::empty(), args, 2), CommandsView::Locations)
    } else if args[1] == "config"@ {
        match config_of(args) {
            Err(e) => Err(e),
            Ok(c) => Ok(CommandsView::Config { subcommand: c }),
        }
    } else if args[1] == "loadout"@ {
        match loadout_of(args) {
            Err(e) => Err(e),
            Ok(l) => Ok(CommandsView::Loadout { subcommand: l }),
        }
    } else if args[1] == "ai"@ {
        plain_of(bound(Seq::empty(), args, 2), CommandsView::Ai)
    } else {
        Err(CliErrorView::UnknownCommand(args[1]))
    }
}

fn value_option(name: &'static str, short: Option<char>) -> (r: OptionRule)
    ensures
        r@ == option(name@, short),
{
    OptionRule { name, short, takes_value: true }
}

fn make_init_rules() -> (r: Vec<OptionRule>)
    ensures
        rule_views(r@) == init_rules(),
{
    let mut rules: Vec<OptionRule> = Vec::new();
    rules.push(value_option("repo-url", Some('r')));
    rules.push(value_option("org", Some('o')));
    rules.push(value_option("name", Some('n')));
    rules.push(value_option("description", Some('d')));
    assert(rule_views(rules@) =~= init_rules());
    rules
}

fn make_add_rules() -> (r: Vec<OptionRule>)
    ensures
        rule_views(r@) == add_rules(),
{
    let mut rules: Vec<OptionRule> = Vec::new();
    rules.push(value_option("repo-url", Some('r')));
    rules.push(value_option("name", Some('n')));
    rules.push(value_option("overview", Some('o')));
    rules.push(value_option("description", Some('d')));
    rules.push(value_option("key-commits", Some('k')));
    rules.push(value_option("related-commits", None));
    rules.push(value_option("category", Some('c')));
    rules.push(value_option("priority", Some('p')));
    assert(rule_views(rules@) =~= add_rules());
    rules
}

fn make_update_rules() -> (r: Vec<OptionRule>)
    ensures
        rule_views(r@) == update_rules(),
{
    let mut rules: Vec<OptionRule> = Vec::new();
    rules.push(value_option("repo-path", Some('r')));
    assert(rule_views(rules@) =~= update_rules());
    rules
}

fn make_generate_rules() -> (r: Vec<OptionRule>)
    ensures
        rule_views(r@) == generate_rules(),
{
    let mut rules: Vec<OptionRule> = Vec::new();
    rules.push(value_option("repo-url", Some('r')));
    rules.push(value_option("output", Some('o')));
    rules.push(value_option("author", Some('a')));
    assert(rule_views(rules@) =~= generate_rules());
    rules
}

fn make_list_rules() -> (r: Vec<OptionRule>)
    ensures
        rule_views(r@) == list_rules(),
{
    let mut rules: Vec<OptionRule> = Vec::new();
    rules.push(OptionRule { name: "detailed", short: Some('d'), takes_value: false });
    assert(rule_views(rules@) =~= list_rules());
    rules
}

fn make_add_org_rules() -> (r: Vec<OptionRule>)
    ensures
        rule_views(r@) == add_org_rules(),
{
    let mut rules: Vec<OptionRule> = Vec::new();
    rules.push(value_option("id", Some('i')));
    rules.push(value_option("name", Some('n')));
    rules.push(value_option("description", Some('d')));
    assert(rule_views(rules@) =~= add_org_rules());
    rules
}

fn make_add_repo_rules() -> (r: Vec<OptionRule>)
    ensures
        rule_views(r@) == add_repo_rules(),
{
    let mut rules: Vec<OptionRule> = Vec::new();
    rules.push(value_option("url", Some('u')));
    rules.push(value_option("org", Some('o')));
    rules.push(value_option("name", Some('n')));
    rules.push(value_option("description", Some('d')));
    assert(rule_views(rules@) =~= add_repo_rules());
    rules
}

fn no_rules() -> (r: Vec<OptionRule>)
    ensures
        rule_views(r@) == Seq::<OptionRuleView>::empty(),
{
    let rules: Vec<OptionRule> = Vec::new();
    assert(rule_views(rules@) =~= Seq::<OptionRuleView>::empty());
    rules
}

/// What binding gave, as texts.
spec fn outcome(b: Result<Bound, CliError>) -> Result<BoundView, CliErrorView> {
    match b {
        Ok(b) => Ok(b@),
        Err(e) => Err(e@),
    }
}

fn first_positional(b: &Bound) -> (r: Result<(), CliError>)
    ensures
        b@.positionals.len() > 0 ==> r is Err && r->Err_0@ == CliErrorView::UnexpectedArgument(
            b@.positionals[0],
        ),
        b@.positionals.len() == 0 ==> r is Ok,
{
    if b.positionals.len() > 0 {
        Err(CliError::UnexpectedArgument(b.positionals[0].clone()))
    } else {
        Ok(())
    }
}

fn required(b: &Bound, name: &str) -> (r: Result<String, CliError>)
    ensures
        match value_of(b@, name@) {
            Some(v) => r is Ok && r->Ok_0@ == v,
            None => r is Err && r->Err_0@ == CliErrorView::MissingArgument(name@),
        },
{
    match b.value(name) {
        Some(v) => Ok(v),
        None => Err(CliError::MissingArgument(String::from_str(name))),
    }
}

fn parse_plain(b: Result<Bound, CliError>, command: Commands) -> (r: Result<Commands, CliError>)
    ensures
        match plain_of(outcome(b), command@) {
            Ok(c) => r is Ok && r->Ok_0@ == c,
            Err(e) => r is Err && r->Err_0@ == e,
        },
{
    let b = b?;
    first_positional(&b)?;
    Ok(command)
}

fn parse_init(b: Result<Bound, CliError>) -> (r: Result<Commands, CliError>)
    ensures
        match init_of(outcome(b)) {
            Ok(c) => r is Ok && r->Ok_0@ == c,
            Err(e) => r is Err && r->Err_0@ == e,
        },
{
    let b = b?;
    first_positional(&b)?;
    let repo_url = required(&b, "repo-url")?;
    let org = required(&b, "org")?;
    let name = required(&b, "name")?;
    let description = b.value("description");
    Ok(Commands::Init { repo_url, org, name, description })
}

fn parse_add(b: Result<Bound, CliError>) -> (r: Result<Commands, CliError>)
    ensures
        match add_of(outcome(b)) {
            Ok(c) => r is Ok && r->Ok_0@ == c,
            Err(e) => r is Err && r->Err_0@ == e,
        },
{
    let b = b?;
    first_positional(&b)?;
    let repo_url = required(&b, "repo-url")?;
    let name = required(&b, "name")?;
    let overview = required(&b, "overview")?;
    let description = required(&b, "description")?;
    let key_commits = required(&b, "key-commits")?;
    let priority = match b.value("priority") {
        Some(p) => match parse_small_number(p.as_str()) {
            Some(n) => n,
            None => {
                return Err(CliError::InvalidValue(String::from_str("priority"), p));
            },
        },
        None => 5,
    };
    let related_commits = b.value("related-commits");
    let category = match b.value("category") {
        Some(c) => c,
        None => String::from_str("Feature"),
    };
    Ok(
        Commands::Add {
            repo_url,
            name,
            overview,
            description,
            key_commits,
            related_commits,
            category,
            priority,
        },
    )
}

fn parse_update(b: Result<Bound, CliError>) -> (r: Result<Commands, CliError>)
    ensures
        match update_of(outcome(b)) {
            Ok(c) => r is Ok && r->Ok_0@ == c,
            Err(e) => r is Err && r->Err_0@ == e,
        },
{
    let b = b?;
    first_positional(&b)?;
    Ok(Commands::Update { repo_path: b.value("repo-path") })
}

fn parse_generate(b: Result<Bound, CliError>) -> (r: Result<Commands, CliError>)
    ensures
        match generate_of(outcome(b)) {
            Ok(c) => r is Ok && r->Ok_0@ == c,
            Err(e) => r is Err && r->Err_0@ == e,
        },
{
    let b = b?;
    first_positional(&b)?;
    let repo_url = required(&b, "repo-url")?;
    let output = match b.value("output") {
        Some(o) => o,
        None => String::from_str("CONTRIBUTIONS.md"),
    };
    let author = b.value("author");
    Ok(Commands::Generate { repo_url, output, author })
}

fn parse_list(b: Result<Bound, CliError>) -> (r: Result<Commands, CliError>)
    ensures
        match list_of(outcome(b)) {
            Ok(c) => r is Ok && r->Ok_0@ == c,
            Err(e) => r is Err && r->Err_0@ == e,
        },
{
    let b = b?;
    first_positional(&b)?;
    Ok(Commands::List { detailed: b.value("detailed").is_some() })
}

fn positionals(b: Result<Bound, CliError>, wanted: usize, first: &str, second: &str) -> (r: Result<
    Vec<String>,
    CliError,
>)
    ensures
        match positionals_of(outcome(b), wanted as int, first@, second@) {
            Ok(p) => r is Ok && texts(r->Ok_0@) == p && (wanted <= 2 ==> p.len() == wanted),
            Err(e) => r is Err && r->Err_0@ == e,
        },
{
    let b = b?;
    if b.positionals.len() > wanted {
        return Err(CliError::UnexpectedArgument(b.positionals[wanted].clone()));
    }
    if b.positionals.len() == 0 && wanted > 0 {
        return Err(CliError::MissingArgument(String::from_str(first)));
    }
    if b.positionals.len() == 1 && wanted > 1 {
        return Err(CliError::MissingArgument(String::from_str(second)));
    }
    Ok(b.positionals)
}

fn parse_query(args: &Vec<String>) -> (r: Result<QueryCommands, CliError>)
    ensures
        match query_of(texts(args@)) {
            Ok(c) => r is Ok && r->Ok_0@ == c,
            Err(e) => r is Err && r->Err_0@ == e,
        },
{
    if args.len() < 3 {
        return Err(CliError::MissingCommand);
    }
    let name = args[2].as_str();
    assert(texts(args@)[2] == name@);
    let rules = no_rules();
    if name.eq("contributions") {
        let p = positionals(bind(&rules, args, 3), 1, "repo-url", "name")?;
        Ok(QueryCommands::Contributions { repo_url: p[0].clone() })
    } else if name.eq("contribution") {
        let p = positionals(bind(&rules, args, 3), 2, "repo-url", "name")?;
        Ok(QueryCommands::Contribution { repo_url: p[0].clone(), name: p[1].clone() })
    } else if name.eq("commits") {
        let p = positionals(bind(&rules, args, 3), 2, "repo-url", "name")?;
        Ok(QueryCommands::Commits { repo_url: p[0].clone(), name: p[1].clone() })
    } else if name.eq("stats") {
        let p = positionals(bind(&rules, args, 3), 0, "repo-url", "name")?;
        Ok(QueryCommands::Stats)
    } else {
        Err(CliError::UnknownCommand(args[2].clone()))
    }
}

fn parse_add_org(b: Result<Bound, CliError>) -> (r: Result<ConfigCommands, CliError>)
    ensures
        match add_org_of(outcome(b)) {
            Ok(c) => r is Ok && r->Ok_0@ == c,
            Err(e) => r is Err && r->Err_0@ == e,
        },
{
    let b = b?;
    first_positional(&b)?;
    let id = required(&b, "id")?;
    let name = required(&b, "name")?;
    let description = b.value("description");
    Ok(ConfigCommands::AddOrg { id, name, description })
}

fn parse_add_repo(b: Result<Bound, CliError>) -> (r: Result<ConfigCommands, CliError>)
    ensures
        match add_repo_of(outcome(b)) {
            Ok(c) => r is Ok && r->Ok_0@ == c,
            Err(e) => r is Err && r->Err_0@ == e,
        },
{
    let b = b?;
    first_positional(&b)?;
    let url = required(&b, "url")?;
    let org = required(&b, "org")?;
    let name = required(&b, "name")?;
    let description = b.value("description");
    Ok(ConfigCommands::AddRepo { url, org, name, description })
}

fn parse_config(args: &Vec<String>) -> (r: Result<ConfigCommands, CliError>)
    ensures
        match config_of(texts(args@)) {
            Ok(c) => r is Ok && r->Ok_0@ == c,
            Err(e) => r is Err && r->Err_0@ == e,
        },
{
    if args.len() < 3 {
        return Err(CliError::MissingCommand);
    }
    let name = args[2].as_str();
    assert(texts(args@)[2] == name@);
    if name.eq("sync") {
        let p = positionals(bind(&no_rules(), args, 3), 0, "id", "name")?;
        Ok(ConfigCommands::Sync)
    } else if name.eq("load") {
        let p = positionals(bind(&no_rules(), args, 3), 0, "id", "name")?;
        Ok(ConfigCommands::Load)
    } else if name.eq("add-org") {
        parse_add_org(bind(&make_add_org_rules(), args, 3))
    } else if name.eq("add-repo") {
        parse_add_repo(bind(&make_add_repo_rules(), args, 3))
    } else {
        Err(CliError::UnknownCommand(args[2].clone()))
    }
}

fn parse_loadout(args: &Vec<String>) -> (r: Result<LoadoutCommands, CliError>)
    ensures
        match loadout_of(texts(args@)) {
            Ok(c) => r is Ok && r->Ok_0@ == c,
            Err(e) => r is Err && r->Err_0@ == e,
        },
{
    if args.len() < 3 {
        return Err(CliError::MissingCommand);
    }
    let name = args[2].as_str();
    assert(texts(args@)[2] == name@);
    let rules = no_rules();
    if name.eq("list") {
        let p = positionals(bind(&rules, args, 3), 0, "name", "name")?;
        Ok(LoadoutCommands::List)
    } else if name.eq("create") {
        let p = positionals(bind(&rules, args, 3), 1, "name", "name")?;
        Ok(LoadoutCommands::Create { name: p[0].clone() })
    } else if name.eq("load") {
        let p = positionals(bind(&rules, args, 3), 1, "name", "name")?;
        Ok(LoadoutCommands::Load { name: p[0].clone() })
    } else if name.eq("save") {
        let p = positionals(bind(&rules, args, 3), 1, "name", "name")?;
        Ok(LoadoutCommands::Save { name: p[0].clone() })
    } else if name.eq("delete") {
        let p = positionals(bind(&rules, args, 3), 1, "name", "name")?;
        Ok(LoadoutCommands::Delete { name: p[0].clone() })
    } else if name.eq("reload-default") {
        let p = positionals(bind(&rules, args, 3), 0, "name", "name")?;
        Ok(LoadoutCommands::ReloadDefault)
    } else {
        Err(CliError::UnknownCommand(args[2].clone()))
    }
}

/// The command that the arguments `args` ask for, the program's name
/// first among them.
pub fn parse_command(args: &Vec<String>) -> (r: Result<Commands, CliError>)
    ensures
        match command_of(texts(args@)) {
            Ok(c) => r is Ok && r->Ok_0@ == c,
            Err(e) => r is Err && r->Err_0@ == e,
        },
{
    if args.len() < 2 {
        return Err(CliError::MissingCommand);
    }
    let name = args[1].as_str();
    assert(texts(args@)[1] == name@);
    if name.eq("--help") || name.eq("-h") || name.eq("help") {
        Err(CliError::HelpRequested)
    } else if name.eq("--version") || name.eq("-V") {
        Err(CliError::VersionRequested)
    } else if name.eq("init") {
        parse_init(bind(&make_init_rules(), args, 2))
    } else if name.eq("add") {
        parse_add(bind(&make_add_rules(), args, 2))
    } else if name.eq("update") {
        parse_update(bind(&make_update_rules(), args, 2))
    } else if name.eq("generate") {
        parse_generate(bind(&make_generate_rules(), args, 2))
    } else if name.eq("query") {
        match parse_query(args) {
            Ok(q) => Ok(Commands::Query { subcommand: q }),
            Err(e) => Err(e),
        }
    } else if name.eq("list") {
        parse_list(bind(&make_list_rules(), args, 2))
    } else if name.eq("locations") {
        parse_plain(bind(&no_rules(), args, 2), Commands::Locations)
    } else if name.eq("config") {
        match parse_config(args) {
            Ok(c) => Ok(Commands::Config { subcommand: c }),
            Err(e) => Err(e),
        }
    } else if name.eq("loadout") {
        match parse_loadout(args) {
            Ok(l) => Ok(Commands::Loadout { subcommand: l }),
            Err(e) => Err(e),
        }
    } else if name.eq("ai") {
        parse_plain(bind(&no_rules(), args, 2), Commands::Ai)
    } else {
        Err(CliError::UnknownCommand(args[1].clone()))
    }
}

/// The texts of string slices.
pub open spec fn slice_texts(items: Seq<&str>) -> Seq<Seq<char>> {
    Seq::new(items.len(), |i: int| items[i]@)
}

impl Cli {
    /// What the command line `args` asks for, the program's name first
    /// among its arguments.
    pub fn try_parse_from(args: Vec<&str>) -> (r: Result<Cli, CliError>)
        ensures
            match command_of(slice_texts(args@)) {
                Ok(c) => r is Ok && r->Ok_0.command@ == c,
                Err(e) => r is Err && r->Err_0@ == e,
            },
    {
        let mut owned: Vec<String> = Vec::new();
        let mut i: usize = 0;
        while i < args.len()
            invariant
                i <= args@.len(),
                texts(owned@) == slice_texts(args@).take(i as int),
            decreases args@.len() - i,
        {
            let ghost before = texts(owned@);
            owned.push(String::from_str(args[i]));
            assert(texts(owned@) =~= before.push(args@[i as int]@));
            assert(slice_texts(args@).take(i + 1) =~= slice_texts(args@).take(i as int).push(
                args@[i as int]@,
            ));
            i += 1;
        }
        assert(slice_texts(args@).take(args@.len() as int) =~= slice_texts(args@));
        match parse_command(&owned) {
            Ok(command) => Ok(Cli { command }),
            Err(e) => Err(e),
        }
    }
}

} // verus!
