use contrack::config::{Config, RepositoryConfig};
use contrack::database::{Commit, Contribution, Database, Repository, Snapshot, Statistics};
use contrack::error::Error;
use contrack::model::{AgentRule, Loadout, Prompt};

fn new_store() -> Database {
    Database::open(Snapshot::new()).unwrap()
}

fn repository(url: &str, organization: &str, name: &str) -> Repository {
    Repository {
        url: url.to_string(),
        organization: organization.to_string(),
        name: name.to_string(),
        description: None,
    }
}

fn contribution(url: &str, name: &str, priority: u8) -> Contribution {
    Contribution {
        id: None,
        repository_url: url.to_string(),
        name: name.to_string(),
        overview: format!("overview of {}", name),
        description: format!("description of {}", name),
        key_commits: vec![],
        related_commits: vec![],
        technical_details: vec![],
        resume_bullets: vec![],
        category: "Feature".to_string(),
        priority,
    }
}

fn commit(hash: &str, url: &str, date: &str, contribution_id: Option<i64>) -> Commit {
    Commit {
        hash: hash.to_string(),
        repository_url: url.to_string(),
        contribution_id,
        author: "Ann".to_string(),
        author_email: "ann@example.com".to_string(),
        date: date.to_string(),
        message: format!("commit {}", hash),
        files_changed: vec![],
        lines_added: None,
        lines_deleted: None,
    }
}

fn prompt(name: &str) -> Prompt {
    Prompt {
        id: 0,
        name: name.to_string(),
        prompt_text: "do it".to_string(),
        description: None,
        category: None,
        variables: None,
    }
}

fn names(prompts: &[Prompt]) -> Vec<String> {
    prompts.iter().map(|p| p.name.clone()).collect()
}

#[test]
fn repository_stored_twice_leaves_the_second() {
    let mut db = new_store();
    db.add_repository(&repository("https://x/r", "first org", "first name"));
    db.add_repository(&Repository {
        url: "https://x/r".to_string(),
        organization: "second org".to_string(),
        name: "second name".to_string(),
        description: Some("now described".to_string()),
    });
    let all = db.get_all_repositories();
    assert_eq!(all.len(), 1);
    assert_eq!(all[0].url, "https://x/r");
    assert_eq!(all[0].organization, "second org");
    assert_eq!(all[0].name, "second name");
    assert_eq!(all[0].description, Some("now described".to_string()));
    assert_eq!(db.get_statistics().repositories, 1);
}

#[test]
fn repositories_are_listed_by_name_then_url() {
    let mut db = new_store();
    db.add_repository(&repository("https://x/b", "o", "zeta"));
    db.add_repository(&repository("https://x/z", "o", "alpha"));
    db.add_repository(&repository("https://x/a", "o", "alpha"));
    db.add_repository(&repository("https://x/c", "o", "Beta"));
    let urls: Vec<String> = db.get_all_repositories().into_iter().map(|r| r.url).collect();
    assert_eq!(urls, vec!["https://x/c", "https://x/a", "https://x/z", "https://x/b"]);
}

#[test]
fn contribution_stored_again_keeps_its_number() {
    let mut db = new_store();
    let c = contribution("https://x/r", "Feature", 5);
    let first = db.add_contribution(&c).unwrap();
    let second = db.add_contribution(&c).unwrap();
    assert_eq!(first, 1);
    assert_eq!(second, 1);
    assert_eq!(db.get_statistics().contributions, 1);
    let other = db.add_contribution(&contribution("https://x/r", "Other", 5)).unwrap();
    assert_eq!(other, 2);
    assert_eq!(db.get_contribution_id("https://x/r", "Feature"), Some(1));
    assert_eq!(db.get_contribution_id("https://x/r", "Other"), Some(2));
    assert_eq!(db.get_contribution_id("https://x/r", "Missing"), None);
}

#[test]
fn contribution_stored_under_its_key_is_replaced_wholly() {
    let mut db = new_store();
    let mut first = contribution("https://x/r", "Feature", 5);
    first.key_commits = vec!["aaa".to_string()];
    first.related_commits = vec!["bbb".to_string()];
    first.resume_bullets = vec!["did a thing".to_string()];
    first.technical_details = vec![contrack::model::TechnicalDetail {
        key: "stack".to_string(),
        value: contrack::model::DetailValue::Text("rust".to_string()),
    }];
    let id = db.add_contribution(&first).unwrap();
    let second = Contribution {
        id: Some(999),
        repository_url: "https://x/r".to_string(),
        name: "Feature".to_string(),
        overview: "new overview".to_string(),
        description: "new description".to_string(),
        key_commits: vec!["ccc".to_string(), "ddd".to_string()],
        related_commits: vec![],
        technical_details: vec![],
        resume_bullets: vec![],
        category: "Bug Fix".to_string(),
        priority: 9,
    };
    assert_eq!(db.add_contribution(&second).unwrap(), id);
    let stored = db.get_contribution("https://x/r", "Feature").unwrap();
    assert_eq!(stored.id, Some(id));
    assert_eq!(stored.overview, "new overview");
    assert_eq!(stored.description, "new description");
    assert_eq!(stored.key_commits, vec!["ccc", "ddd"]);
    assert!(stored.related_commits.is_empty());
    assert!(stored.technical_details.is_empty());
    assert!(stored.resume_bullets.is_empty());
    assert_eq!(stored.category, "Bug Fix");
    assert_eq!(stored.priority, 9);
    assert_eq!(db.get_contributions("https://x/r").len(), 1);
}

#[test]
fn contributions_are_listed_by_priority_then_name() {
    let mut db = new_store();
    db.add_contribution(&contribution("https://x/r", "low", 3)).unwrap();
    db.add_contribution(&contribution("https://x/r", "high", 9)).unwrap();
    db.add_contribution(&contribution("https://x/r", "b", 5)).unwrap();
    db.add_contribution(&contribution("https://x/r", "a", 5)).unwrap();
    db.add_contribution(&contribution("https://x/other", "elsewhere", 10)).unwrap();
    let listed: Vec<(u8, String)> =
        db.get_contributions("https://x/r").into_iter().map(|c| (c.priority, c.name)).collect();
    assert_eq!(
        listed,
        vec![
            (9, "high".to_string()),
            (5, "a".to_string()),
            (5, "b".to_string()),
            (3, "low".to_string())
        ]
    );
    assert!(db.get_contributions("https://x/none").is_empty());
}

#[test]
fn commits_of_a_contribution_come_latest_first() {
    let mut db = new_store();
    let id = db.add_contribution(&contribution("https://x/r", "Feature", 5)).unwrap();
    let other = db.add_contribution(&contribution("https://x/r", "Other", 5)).unwrap();
    db.add_commit(&commit("c1", "https://x/r", "2024-01-01T00:00:00+00:00", Some(id)));
    db.add_commit(&commit("c3", "https://x/r", "2024-03-01T00:00:00+00:00", Some(id)));
    db.add_commit(&commit("c2", "https://x/r", "2024-02-01T00:00:00+00:00", Some(id)));
    db.add_commit(&commit("cb", "https://x/r", "2024-02-01T00:00:00+00:00", Some(id)));
    db.add_commit(&commit("c4", "https://x/r", "2024-04-01T00:00:00+00:00", Some(other)));
    db.add_commit(&commit("c5", "https://x/r", "2024-05-01T00:00:00+00:00", None));
    let hashes: Vec<String> = db
        .get_commits_for_contribution("https://x/r", "Feature")
        .into_iter()
        .map(|c| c.hash)
        .collect();
    assert_eq!(hashes, vec!["c3", "c2", "cb", "c1"]);
    assert!(db.get_commits_for_contribution("https://x/r", "Missing").is_empty());
    assert_eq!(db.get_statistics().commits, 6);
}

#[test]
fn commit_stored_under_its_hash_is_replaced() {
    let mut db = new_store();
    let id = db.add_contribution(&contribution("https://x/r", "Feature", 5)).unwrap();
    db.add_commit(&commit("c1", "https://x/r", "2024-01-01T00:00:00+00:00", Some(id)));
    db.add_commit(&commit("c1", "https://x/r", "2024-01-02T00:00:00+00:00", None));
    assert_eq!(db.get_statistics().commits, 1);
    assert!(db.get_commits_for_contribution("https://x/r", "Feature").is_empty());
    assert_eq!(db.snapshot().commits[0].date, "2024-01-02T00:00:00+00:00");
}

#[test]
fn a_new_store_holds_the_seeds() {
    let db = new_store();
    assert_eq!(
        db.get_statistics(),
        Statistics { repositories: 0, contributions: 0, commits: 0, agent_rules: 3, prompts: 2 }
    );
    let rules = db.get_all_agent_rules();
    let rule_names: Vec<(i32, &str)> = rules.iter().map(|r| (r.priority, r.name.as_str())).collect();
    assert_eq!(
        rule_names,
        vec![
            (10, "read_contributions_database"),
            (9, "generate_contributions_markdown"),
            (8, "maintain_consistency")
        ]
    );
    assert_eq!(rules[0].category, Some("Database Usage".to_string()));
    assert!(rules[2].instruction.starts_with("When working with contributions data:\n1. Always"));
    let prompts = db.get_all_prompts();
    assert_eq!(names(&prompts), vec!["analyze_contributions", "generate_contributions_markdown"]);
    assert_eq!(prompts[0].variables, Some("[\"repository_url\"]".to_string()));
    assert_eq!(db.list_loadouts(), vec![(1, "default".to_string(), true)]);
    let rows = db.snapshot();
    assert_eq!(rows.loadouts[0].prompt_ids, vec![1, 2]);
    assert_eq!(rows.loadouts[0].rule_ids, vec![1, 2, 3]);
    assert_eq!(rows.next_rule_id, 4);
    assert_eq!(rows.next_prompt_id, 3);
    assert_eq!(rows.next_loadout_id, 2);
}

#[test]
fn opening_again_seeds_nothing_twice() {
    let mut db = new_store();
    db.add_repository(&repository("https://x/r", "o", "n"));
    db.create_loadout("work").unwrap();
    let again = Database::open(db.snapshot()).unwrap();
    assert_eq!(format!("{:?}", again.snapshot()), format!("{:?}", db.snapshot()));
}

#[test]
fn opening_seeds_rules_again_once_they_are_all_gone() {
    let mut db = new_store();
    db.create_loadout("empty").unwrap();
    db.load_loadout("empty").unwrap();
    assert_eq!(db.get_statistics().agent_rules, 0);
    assert_eq!(db.get_statistics().prompts, 0);
    let again = Database::open(db.snapshot()).unwrap();
    assert_eq!(again.get_statistics().agent_rules, 3);
    assert_eq!(again.get_statistics().prompts, 2);
    let ids: Vec<i64> = again.snapshot().agent_rules.iter().map(|r| r.id).collect();
    assert_eq!(ids, vec![4, 5, 6]);
    assert_eq!(again.list_loadouts().len(), 2);
}

#[test]
fn rows_that_do_not_keep_their_keys_are_refused() {
    let mut rows = Snapshot::new();
    rows.repositories.push(repository("https://x/r", "o", "a"));
    rows.repositories.push(repository("https://x/r", "o", "b"));
    assert_eq!(Database::open(rows).err(), Some(Error::InvalidSnapshot));

    let mut rows = Snapshot::new();
    rows.contributions.push(contribution("https://x/r", "a", 1));
    assert_eq!(Database::open(rows).err(), Some(Error::InvalidSnapshot));

    let mut rows = Snapshot::new();
    let mut c = contribution("https://x/r", "a", 1);
    c.id = Some(1);
    rows.contributions.push(c);
    assert_eq!(Database::open(rows).err(), Some(Error::InvalidSnapshot));

    let mut rows = Snapshot::new();
    let mut c = contribution("https://x/r", "a", 1);
    c.id = Some(1);
    rows.contributions.push(c);
    rows.next_contribution_id = 2;
    assert!(Database::open(rows).is_ok());

    let mut rows = Snapshot::new();
    for id in 1..3 {
        rows.loadouts.push(Loadout {
            id,
            name: format!("l{}", id),
            is_default: true,
            prompt_ids: vec![],
            rule_ids: vec![],
        });
    }
    rows.next_loadout_id = 3;
    assert_eq!(Database::open(rows).err(), Some(Error::InvalidSnapshot));

    let mut rows = Snapshot::new();
    rows.next_prompt_id = 0;
    assert_eq!(Database::open(rows).err(), Some(Error::InvalidSnapshot));
}

#[test]
fn the_default_loadout_needs_its_name() {
    let mut rows = Snapshot::new();
    rows.loadouts.push(Loadout {
        id: 1,
        name: "default".to_string(),
        is_default: false,
        prompt_ids: vec![],
        rule_ids: vec![],
    });
    rows.next_loadout_id = 2;
    assert_eq!(Database::open(rows).err(), Some(Error::LoadoutExists("default".to_string())));
}

#[test]
fn a_table_can_run_out_of_numbers() {
    let mut rows = Snapshot::new();
    rows.next_contribution_id = i64::MAX;
    let mut db = Database::open(rows).unwrap();
    assert_eq!(
        db.add_contribution(&contribution("https://x/r", "a", 1)),
        Err(Error::IdsExhausted)
    );
    assert_eq!(db.get_statistics().contributions, 0);

    let mut rows = Snapshot::new();
    rows.next_rule_id = i64::MAX - 2;
    assert_eq!(Database::open(rows).err(), Some(Error::IdsExhausted));

    let mut rows = Snapshot::new();
    rows.next_loadout_id = i64::MAX;
    assert_eq!(Database::open(rows).err(), Some(Error::IdsExhausted));
}

#[test]
fn loading_a_loadout_keeps_what_was_saved_into_it() {
    let mut db = new_store();
    db.add_prompt(&prompt("first")).unwrap();
    db.add_prompt(&prompt("second")).unwrap();
    db.create_loadout("A").unwrap();
    db.save_current_to_loadout("A").unwrap();
    let saved = names(&db.get_all_prompts());
    let third = db.add_prompt(&prompt("third")).unwrap();
    assert_eq!(db.get_all_prompts().len(), saved.len() + 1);
    db.load_loadout("A").unwrap();
    assert_eq!(names(&db.get_all_prompts()), saved);
    assert!(db.get_all_prompts().iter().all(|p| p.id != third));
    assert!(names(&db.get_all_prompts()).contains(&"first".to_string()));
    assert!(names(&db.get_all_prompts()).contains(&"second".to_string()));
    assert_eq!(db.get_all_agent_rules().len(), 3);
}

#[test]
fn loading_deletes_what_a_loadout_does_not_hold() {
    let mut db = new_store();
    db.create_loadout("A").unwrap();
    db.save_current_to_loadout("A").unwrap();
    db.add_prompt(&prompt("later")).unwrap();
    db.add_agent_rule(&AgentRule {
        id: 0,
        name: "late rule".to_string(),
        instruction: "x".to_string(),
        priority: 100,
        category: None,
    })
    .unwrap();
    assert_eq!(db.get_all_agent_rules()[0].name, "late rule");
    db.reload_default_loadout().unwrap();
    assert_eq!(db.get_all_prompts().len(), 2);
    assert_eq!(db.get_all_agent_rules().len(), 3);
    db.create_loadout("none").unwrap();
    db.load_loadout("none").unwrap();
    assert!(db.get_all_prompts().is_empty());
    assert!(db.get_all_agent_rules().is_empty());
    assert_eq!(db.load_loadout("missing"), Err(Error::LoadoutNotFound("missing".to_string())));
    assert_eq!(
        db.save_current_to_loadout("missing"),
        Err(Error::LoadoutNotFound("missing".to_string()))
    );
}

#[test]
fn a_loadout_that_cannot_be_deleted_is_left_as_it_was() {
    let mut db = new_store();
    db.create_loadout("work").unwrap();
    let before = format!("{:?}", db.snapshot());
    assert_eq!(db.delete_loadout("default"), Err(Error::DefaultLoadout));
    assert_eq!(format!("{:?}", db.snapshot()), before);
    assert_eq!(db.delete_loadout("missing"), Err(Error::LoadoutNotFound("missing".to_string())));
    assert_eq!(format!("{:?}", db.snapshot()), before);
    assert_eq!(db.delete_loadout("work"), Ok(()));
    assert_eq!(db.list_loadouts(), vec![(1, "default".to_string(), true)]);
    assert_eq!(db.get_loadout_id("work"), None);
}

#[test]
fn loadouts_are_listed_with_the_default_one_first() {
    let mut db = new_store();
    assert_eq!(db.create_loadout("zeta"), Ok(2));
    assert_eq!(db.create_loadout("alpha"), Ok(3));
    assert_eq!(db.create_loadout("alpha"), Err(Error::LoadoutExists("alpha".to_string())));
    assert_eq!(db.create_loadout("default"), Err(Error::LoadoutExists("default".to_string())));
    assert_eq!(
        db.list_loadouts(),
        vec![
            (1, "default".to_string(), true),
            (3, "alpha".to_string(), false),
            (2, "zeta".to_string(), false)
        ]
    );
    assert_eq!(db.get_loadout_id("zeta"), Some(2));
    db.delete_loadout("zeta").unwrap();
    assert_eq!(db.create_loadout("zeta"), Ok(4));
}

#[test]
fn rules_and_prompts_have_their_names_to_themselves() {
    let mut db = new_store();
    assert_eq!(
        db.add_prompt(&prompt("analyze_contributions")),
        Err(Error::PromptExists("analyze_contributions".to_string()))
    );
    assert_eq!(db.add_prompt(&prompt("fresh")), Ok(3));
    let rule = AgentRule {
        id: 7,
        name: "maintain_consistency".to_string(),
        instruction: "x".to_string(),
        priority: 1,
        category: None,
    };
    assert_eq!(db.add_agent_rule(&rule), Err(Error::RuleExists("maintain_consistency".to_string())));
    let rule = AgentRule { name: "another".to_string(), ..rule };
    assert_eq!(db.add_agent_rule(&rule), Ok(4));
    let listed: Vec<String> = db.get_all_agent_rules().into_iter().map(|r| r.name).collect();
    assert_eq!(
        listed,
        vec![
            "read_contributions_database",
            "generate_contributions_markdown",
            "maintain_consistency",
            "another"
        ]
    );
}

#[test]
fn organizations_come_from_the_repositories() {
    let mut db = new_store();
    db.add_repository(&Repository {
        url: "https://x/2".to_string(),
        organization: "acme".to_string(),
        name: "beta".to_string(),
        description: Some("second by name".to_string()),
    });
    db.add_repository(&Repository {
        url: "https://x/1".to_string(),
        organization: "acme".to_string(),
        name: "alpha".to_string(),
        description: None,
    });
    db.add_repository(&Repository {
        url: "https://x/3".to_string(),
        organization: "zenith".to_string(),
        name: "gamma".to_string(),
        description: Some("z".to_string()),
    });
    assert_eq!(
        db.get_all_organizations(),
        vec![("acme".to_string(), None), ("zenith".to_string(), Some("z".to_string()))]
    );
    let config = db.load_config_from_db();
    assert_eq!(config.organizations.len(), 2);
    assert_eq!(config.organizations.get("acme").unwrap().name, "acme");
    assert_eq!(config.organizations.get("zenith").unwrap().description, Some("z".to_string()));
    assert_eq!(config.repositories.len(), 3);
    assert_eq!(config.repositories.key_at(0).unwrap(), "https://x/1");
    assert_eq!(config.repositories.get("https://x/2").unwrap().name, "beta");
    assert!(config.repositories.key_at(3).is_none());
}

#[test]
fn a_configuration_puts_its_repositories_into_the_store() {
    let mut db = new_store();
    db.add_repository(&repository("https://x/1", "old", "old name"));
    let mut config = Config::new();
    config.repositories.insert(
        "https://x/1".to_string(),
        RepositoryConfig { organization: "acme".to_string(), name: "one".to_string(), description: None },
    );
    config.repositories.insert(
        "https://x/2".to_string(),
        RepositoryConfig {
            organization: "acme".to_string(),
            name: "two".to_string(),
            description: Some("d".to_string()),
        },
    );
    db.load_config_to_db(&config);
    let all = db.get_all_repositories();
    assert_eq!(all.len(), 2);
    assert_eq!((all[0].name.as_str(), all[0].organization.as_str()), ("one", "acme"));
    assert_eq!(all[1].description, Some("d".to_string()));
}

#[test]
fn errors_have_messages() {
    assert_eq!(Error::LoadoutNotFound("x".to_string()).message(), "Loadout 'x' not found");
    assert_eq!(Error::LoadoutExists("x".to_string()).message(), "Loadout 'x' already exists");
    assert_eq!(Error::DefaultLoadout.message(), "Cannot delete the default loadout");
    assert_eq!(Error::ContributionNotFound("c".to_string()).message(), "Contribution 'c' not found");
    assert_eq!(Error::InvalidCommitHash("zz".to_string()).message(), "Invalid commit hash: zz");
    assert_eq!(Error::ConfigNotFound("/p".to_string()).message(), "Config file not found: /p");
    assert_eq!(
        Error::NoDataDirectory.message(),
        "Failed to determine application data directory"
    );
}
