use contrack::commands::{
    ai_command, config_add_org_command, config_add_repo_command, config_load_command,
    config_sync_command, generate_command, list_repositories, loadout_create_command,
    loadout_delete_command, loadout_list_command, loadout_load_command,
    loadout_reload_default_command, loadout_save_command, query_contribution, query_contributions,
    query_stats,
};
use contrack::config::Config;
use contrack::database::{Commit, Contribution, Database, Repository, Snapshot};
use contrack::error::Error;
use contrack::markdown::{commits_by_author, generate_markdown};
use contrack::model::{DetailValue, TechnicalDetail};

const RULE: &str =
    "================================================================================\n";

fn rich_contribution() -> Contribution {
    Contribution {
        id: Some(1),
        repository_url: "https://x/r".to_string(),
        name: "Parser".to_string(),
        overview: "A parser for things".to_string(),
        description: "It parses\nmany things".to_string(),
        key_commits: vec!["a1b2c3".to_string(), "d4e5f6".to_string()],
        related_commits: vec!["778899".to_string()],
        technical_details: vec![
            TechnicalDetail { key: "stack".to_string(), value: DetailValue::Text("rust, nom".to_string()) },
            TechnicalDetail { key: "modules".to_string(), value: DetailValue::Number(-12) },
            TechnicalDetail { key: "fuzzed".to_string(), value: DetailValue::Flag(true) },
            TechnicalDetail { key: "owner".to_string(), value: DetailValue::Null },
            TechnicalDetail {
                key: "layers".to_string(),
                value: DetailValue::Structured("[\"lexer\",\"parser\"]".to_string()),
            },
        ],
        resume_bullets: vec![
            "Built a parser".to_string(),
            "Made it fast".to_string(),
            "Wrote the docs".to_string(),
        ],
        category: "Core Feature".to_string(),
        priority: 9,
    }
}

fn commit(hash: &str, author: &str, date: &str, message: &str) -> Commit {
    Commit {
        hash: hash.to_string(),
        repository_url: "https://x/r".to_string(),
        contribution_id: Some(1),
        author: author.to_string(),
        author_email: format!("{}@example.com", author.to_lowercase()),
        date: date.to_string(),
        message: message.to_string(),
        files_changed: vec![],
        lines_added: Some(10),
        lines_deleted: Some(2),
    }
}

fn bare(name: &str) -> Contribution {
    Contribution {
        id: None,
        repository_url: "https://x/r".to_string(),
        name: name.to_string(),
        overview: String::new(),
        description: String::new(),
        key_commits: vec![],
        related_commits: vec![],
        technical_details: vec![],
        resume_bullets: vec![],
        category: "Feature".to_string(),
        priority: 5,
    }
}

#[test]
fn the_document_holds_every_piece_of_a_contribution() {
    let entries = vec![(rich_contribution(), vec![])];
    let text = generate_markdown("https://x/r", &entries, &None);
    for piece in ["a1b2c3", "d4e5f6", "778899", "rust, nom", "Built a parser", "Made it fast", "Wrote the docs"] {
        assert!(text.contains(piece), "{} is missing", piece);
    }
    assert_eq!(
        text,
        "# Contributions\n\nRepository: https://x/r\n\n## Parser\n\n**Category:** Core Feature | **Priority:** 9\n\nA parser for things\n\n### Description\n\nIt parses\nmany things\n\n### Key Commits\n\n- `a1b2c3`\n- `d4e5f6`\n\n### Related Commits\n\n- `778899`\n\n### Technical Details\n\n- **stack**: rust, nom\n- **modules**: -12\n- **fuzzed**: true\n- **owner**: null\n- **layers**: [\"lexer\",\"parser\"]\n\n### Resume Bullets\n\n1. Built a parser\n2. Made it fast\n3. Wrote the docs\n"
    );
}

#[test]
fn a_part_that_holds_nothing_is_left_out() {
    let mut c = rich_contribution();
    c.technical_details = vec![];
    let text = generate_markdown("https://x/r", &vec![(c, vec![])], &None);
    assert!(!text.contains("Technical Details"));
    assert!(text.contains("### Resume Bullets"));
    let text = generate_markdown("https://x/r", &vec![(bare("Empty"), vec![])], &None);
    assert_eq!(
        text,
        "# Contributions\n\nRepository: https://x/r\n\n## Empty\n\n**Category:** Feature | **Priority:** 5\n"
    );
    assert_eq!(
        generate_markdown("https://x/r", &vec![], &None),
        "# Contributions\n\nRepository: https://x/r\n"
    );
}

#[test]
fn listed_commits_are_resolved_where_they_are_known() {
    let commits = vec![
        commit("d4e5f6aaaa", "Ann", "2024-02-01T00:00:00+00:00", "Second\n\nwith a body\n"),
        commit("a1b2c3bbbb", "Bob", "2024-01-01T00:00:00+00:00", "  First "),
    ];
    let mut c = bare("Parser");
    c.key_commits = vec!["a1b2c3".to_string(), "d4e5f6".to_string(), "000000".to_string()];
    let text = generate_markdown("https://x/r", &vec![(c, commits)], &None);
    assert_eq!(
        text,
        "# Contributions\n\nRepository: https://x/r\n\n## Parser\n\n**Category:** Feature | **Priority:** 5\n\n### Key Commits\n\n- `a1b2c3` 2024-01-01T00:00:00+00:00 Bob: First\n- `d4e5f6` 2024-02-01T00:00:00+00:00 Ann: Second\n  \n  with a body\n- `000000`\n\n### Commits\n\n- `d4e5f6aaaa` 2024-02-01T00:00:00+00:00 Ann <ann@example.com>: Second\n  \n  with a body (+10 -2)\n- `a1b2c3bbbb` 2024-01-01T00:00:00+00:00 Bob <bob@example.com>: First (+10 -2)\n"
    );
}

#[test]
fn an_author_filter_shows_only_that_author() {
    let commits = vec![
        commit("d4e5f6aaaa", "Ann", "2024-02-01T00:00:00+00:00", "Second"),
        commit("a1b2c3bbbb", "Bob", "2024-01-01T00:00:00+00:00", "First"),
    ];
    let shown = commits_by_author(&commits, &Some("Bob".to_string()));
    assert_eq!(shown.len(), 1);
    assert_eq!(shown[0].hash, "a1b2c3bbbb");
    assert_eq!(commits_by_author(&commits, &None).len(), 2);
    assert!(commits_by_author(&commits, &Some("bob".to_string())).is_empty());
    let mut c = bare("Parser");
    c.key_commits = vec!["d4e5f6".to_string()];
    let entries = vec![(c, commits), (bare("Other"), vec![commit("99", "Ann", "d", "m")])];
    let text = generate_markdown("https://x/r", &entries, &Some("Bob".to_string()));
    assert_eq!(
        text,
        "# Contributions\n\nRepository: https://x/r\nAuthor: Bob\n\n## Parser\n\n**Category:** Feature | **Priority:** 5\n\n### Key Commits\n\n- `d4e5f6`\n\n### Commits\n\n- `a1b2c3bbbb` 2024-01-01T00:00:00+00:00 Bob <bob@example.com>: First (+10 -2)\n\n## Other\n\n**Category:** Feature | **Priority:** 5\n"
    );
}

#[test]
fn generate_makes_a_document_of_the_stored_contributions() {
    let mut db = Database::open(Snapshot::new()).unwrap();
    let none = generate_command(&db, "https://x/r", "OUT.md", &None);
    assert_eq!(none.document, None);
    assert_eq!(none.message, "No contributions found for repository: https://x/r\n");
    let mut low = bare("Low");
    low.priority = 3;
    let mut high = bare("High");
    high.priority = 9;
    db.add_contribution(&low).unwrap();
    let id = db.add_contribution(&high).unwrap();
    let mut c = commit("abc", "Ann", "2024-01-01T00:00:00+00:00", "msg");
    c.contribution_id = Some(id);
    c.lines_deleted = None;
    db.add_commit(&c);
    let made = generate_command(&db, "https://x/r", "OUT.md", &None);
    assert_eq!(made.message, "Generated contributions markdown: OUT.md\n  2 contributions documented\n");
    assert_eq!(
        made.document.unwrap(),
        "# Contributions\n\nRepository: https://x/r\n\n## High\n\n**Category:** Feature | **Priority:** 9\n\n### Commits\n\n- `abc` 2024-01-01T00:00:00+00:00 Ann <ann@example.com>: msg\n\n## Low\n\n**Category:** Feature | **Priority:** 3\n"
    );
}

#[test]
fn contributions_are_queried_in_the_order_of_their_priority() {
    let mut db = Database::open(Snapshot::new()).unwrap();
    assert_eq!(
        query_contributions(&db, "https://x/r"),
        "No contributions found for repository: https://x/r\n"
    );
    let mut low = bare("Low");
    low.priority = 3;
    low.overview = "small".to_string();
    let mut high = bare("High");
    high.priority = 9;
    high.key_commits = vec!["a".to_string(), "b".to_string()];
    db.add_contribution(&low).unwrap();
    db.add_contribution(&high).unwrap();
    assert_eq!(
        query_contributions(&db, "https://x/r"),
        format!(
            "\nContributions for https://x/r\n{}\n* High\n  Category: Feature | Priority: 9\n  Overview: \n  Key Commits: 2\n\n* Low\n  Category: Feature | Priority: 3\n  Overview: small\n  Key Commits: 0\n",
            RULE
        )
    );
}

#[test]
fn one_contribution_is_reported_in_full() {
    let mut db = Database::open(Snapshot::new()).unwrap();
    let mut c = rich_contribution();
    c.related_commits = (1..8).map(|i| format!("r{}", i)).collect();
    db.add_contribution(&c).unwrap();
    assert_eq!(
        query_contribution(&db, "https://x/r", "Parser").unwrap(),
        format!(
            "\nContribution: Parser\n{}Repository: https://x/r\nCategory: Core Feature | Priority: 9\n\nOverview:\nA parser for things\n\nDescription:\nIt parses\nmany things\n\nKey Commits (2):\n  - a1b2c3\n  - d4e5f6\n\nRelated Commits (7):\n  - r1\n  - r2\n  - r3\n  - r4\n  - r5\n  ... and 2 more\n\nTechnical Details:\n  stack: rust, nom\n  modules: -12\n  fuzzed: true\n  owner: null\n  layers: [\"lexer\",\"parser\"]\n\nResume Bullets (3):\n  1. Built a parser\n  2. Made it fast\n  3. Wrote the docs\n",
            RULE
        )
    );
    db.add_contribution(&bare("Bare")).unwrap();
    assert_eq!(
        query_contribution(&db, "https://x/r", "Bare").unwrap(),
        format!(
            "\nContribution: Bare\n{}Repository: https://x/r\nCategory: Feature | Priority: 5\n\nOverview:\n\n\nDescription:\n\n",
            RULE
        )
    );
    assert_eq!(
        query_contribution(&db, "https://x/r", "Missing"),
        Err(Error::ContributionNotFound("Missing".to_string()))
    );
}

#[test]
fn statistics_count_the_rows() {
    let mut db = Database::open(Snapshot::new()).unwrap();
    for i in 0..12 {
        db.add_commit(&commit(&format!("c{}", i), "Ann", "d", "m"));
    }
    assert_eq!(
        query_stats(&db),
        format!(
            "\nDatabase Statistics\n{}Repositories: 0\nContributions: 0\nCommits: 12\nAgent Rules: 3\nPrompts: 2\n",
            RULE
        )
    );
}

#[test]
fn repositories_are_listed_with_their_contributions_counted() {
    let mut db = Database::open(Snapshot::new()).unwrap();
    assert_eq!(list_repositories(&db, true), "No repositories found in database\n");
    db.add_repository(&Repository {
        url: "https://x/r".to_string(),
        organization: "acme".to_string(),
        name: "tool".to_string(),
        description: Some("a tool".to_string()),
    });
    db.add_repository(&Repository {
        url: "https://x/a".to_string(),
        organization: "acme".to_string(),
        name: "atlas".to_string(),
        description: None,
    });
    db.add_contribution(&bare("One")).unwrap();
    db.add_contribution(&bare("Two")).unwrap();
    assert_eq!(
        list_repositories(&db, false),
        format!(
            "\nRepositories\n{}\n* atlas\n  URL: https://x/a\n  Organization: acme\n\n* tool\n  URL: https://x/r\n  Organization: acme\n  Description: a tool\n",
            RULE
        )
    );
    assert_eq!(
        list_repositories(&db, true),
        format!(
            "\nRepositories\n{}\n* atlas\n  URL: https://x/a\n  Organization: acme\n  Contributions: 0\n\n* tool\n  URL: https://x/r\n  Organization: acme\n  Description: a tool\n  Contributions: 2\n",
            RULE
        )
    );
}

#[test]
fn loadout_commands_say_what_they_did() {
    let mut db = Database::open(Snapshot::new()).unwrap();
    assert_eq!(loadout_create_command(&mut db, "work"), Ok("Loadout 'work' created\n".to_string()));
    assert_eq!(
        loadout_create_command(&mut db, "work"),
        Err(Error::LoadoutExists("work".to_string()))
    );
    assert_eq!(
        loadout_save_command(&mut db, "fresh"),
        Ok("Current prompts and rules saved to loadout 'fresh'\n".to_string())
    );
    assert_eq!(db.snapshot().loadouts[2].prompt_ids, vec![1, 2]);
    assert_eq!(
        loadout_list_command(&db),
        format!(
            "\nLoadouts\n{}\n* default [ID: 1] (default)\n\n* fresh [ID: 3]\n\n* work [ID: 2]\n\n",
            RULE
        )
    );
    assert_eq!(loadout_load_command(&mut db, "work"), Ok("Loadout 'work' loaded\n".to_string()));
    assert_eq!(db.get_statistics().prompts, 0);
    assert_eq!(
        loadout_load_command(&mut db, "gone"),
        Err(Error::LoadoutNotFound("gone".to_string()))
    );
    assert_eq!(loadout_delete_command(&mut db, "work"), Ok("Loadout 'work' deleted\n".to_string()));
    assert_eq!(loadout_delete_command(&mut db, "default"), Err(Error::DefaultLoadout));
    assert_eq!(
        loadout_reload_default_command(&mut db),
        Ok("Default loadout reloaded\n".to_string())
    );
}

#[test]
fn config_commands_keep_store_and_configuration_together() {
    let mut db = Database::open(Snapshot::new()).unwrap();
    let mut config = Config::new();
    assert_eq!(
        config_add_repo_command(&mut db, &mut config, "https://x/r", "acme", "tool", &None),
        "Repository added\n"
    );
    assert_eq!(
        config_add_org_command(&mut db, &mut config, "acme", "Acme Inc", &Some("makers".to_string())),
        "Organization 'acme' added\n"
    );
    assert_eq!(config.organizations.get("acme").unwrap().name, "Acme Inc");
    assert_eq!(db.get_all_repositories().len(), 1);
    let (synced, text) = config_sync_command(&db, "/tmp/config.toml");
    assert_eq!(text, "Configuration synced to: /tmp/config.toml\n");
    assert_eq!(synced.repositories.get("https://x/r").unwrap().name, "tool");
    assert_eq!(synced.organizations.get("acme").unwrap().name, "acme");
    let mut other = Database::open(Snapshot::new()).unwrap();
    assert_eq!(
        config_load_command(&mut other, &Some(synced), "/tmp/config.toml"),
        Ok("Configuration loaded from: /tmp/config.toml\n".to_string())
    );
    assert_eq!(other.get_all_repositories()[0].url, "https://x/r");
    assert_eq!(
        config_load_command(&mut other, &None, "/tmp/none.toml"),
        Err(Error::ConfigNotFound("/tmp/none.toml".to_string()))
    );
}

#[test]
fn test_ai_command() {
    let db = Database::open(Snapshot::new()).unwrap();
    let result = ai_command(&db);
    assert!(result.starts_with("Contrack - Contribution Tracking Tool for AI Agents\n====")
        && result.contains("AGENT RULES:\n------------\n\n1. read_contributions_database [Priority: 10, Category: Database Usage]\n   When a user provides a SQLite contributions database file, you should:\n   1. First, read the agent_rules table")
        && result.contains("\n2. generate_contributions_markdown [Category: Documentation]\n   Description: Prompt for updating contributions markdown file\n   Prompt: Update the contributions markdown file for repository {repository_url} based on the contributions database.\n   \n   1. Read the current markdown file if it exists\n")
        && result.ends_with("you can help them execute it using the contrack tool.\n"));
}

#[test]
fn the_briefing_says_when_there_is_nothing() {
    let mut db = Database::open(Snapshot::new()).unwrap();
    db.create_loadout("none").unwrap();
    db.load_loadout("none").unwrap();
    let text = ai_command(&db);
    assert!(text.contains("AGENT RULES:\n------------\nNo agent rules found in database.\n\nAVAILABLE PROMPTS:\n------------------\nNo prompts found in database.\n\nNEXT STEPS:\n"));
}
