use contrack::commands::{add_command, init_command, query_commits, update_command};
use contrack::config::Config;
use contrack::database::{Contribution, Database, Repository, Snapshot};
use contrack::error::Error;
use contrack::git::{
    commit_date, commit_record, count_marks, extract_commits_from_repo, get_commit_details,
    line_counts, RawCommit, RawDiff,
};
use contrack::reconcile::{assign, claims_commit, lists_prefix_of, record_commit};

fn raw(hash: &str, seconds: i64) -> RawCommit {
    RawCommit {
        hash: hash.to_string(),
        author_name: Some("Ann Author".to_string()),
        author_email: Some("ann@example.com".to_string()),
        seconds,
        message: Some("Add the thing\n".to_string()),
        parent_count: 1,
        diff: Some(RawDiff {
            new_paths: vec![Some("src/lib.rs".to_string()), None, Some("README.md".to_string())],
            line_origins: vec!['+', ' ', '-', '+', 'F', 'H', '+', '-'],
        }),
    }
}

fn contribution(url: &str, name: &str, priority: u8, key: &[&str], related: &[&str]) -> Contribution {
    Contribution {
        id: None,
        repository_url: url.to_string(),
        name: name.to_string(),
        overview: String::new(),
        description: String::new(),
        key_commits: key.iter().map(|s| s.to_string()).collect(),
        related_commits: related.iter().map(|s| s.to_string()).collect(),
        technical_details: vec![],
        resume_bullets: vec![],
        category: "Feature".to_string(),
        priority,
    }
}

fn store_with_repository(url: &str) -> Database {
    let mut db = Database::open(Snapshot::new()).unwrap();
    db.add_repository(&Repository {
        url: url.to_string(),
        organization: "o".to_string(),
        name: "n".to_string(),
        description: None,
    });
    db
}

#[test]
fn dates_are_written_in_utc() {
    assert_eq!(commit_date(0), "1970-01-01T00:00:00+00:00");
    assert_eq!(commit_date(1431648000), "2015-05-15T00:00:00+00:00");
    assert_eq!(commit_date(1700000000), "2023-11-14T22:13:20+00:00");
    assert_eq!(commit_date(-1), "1969-12-31T23:59:59+00:00");
    assert_eq!(commit_date(i64::MAX), "1970-01-01T00:00:00+00:00");
    assert_eq!(commit_date(i64::MIN), "1970-01-01T00:00:00+00:00");
}

#[test]
fn a_commit_is_recorded_with_its_statistics() {
    let history = vec![raw("0123456789abcdef0123456789abcdef01234567", 1431648000)];
    let commits =
        extract_commits_from_repo(&history, &Some("https://github.com/o/r.git".to_string())).unwrap();
    assert_eq!(commits.len(), 1);
    let c = &commits[0];
    assert_eq!(c.hash, "0123456789abcdef0123456789abcdef01234567");
    assert_eq!(c.repository_url, "https://github.com/o/r.git");
    assert_eq!(c.contribution_id, None);
    assert_eq!(c.author, "Ann Author");
    assert_eq!(c.author_email, "ann@example.com");
    assert_eq!(c.date, "2015-05-15T00:00:00+00:00");
    assert_eq!(c.message, "Add the thing\n");
    assert_eq!(c.files_changed, vec!["src/lib.rs", "README.md"]);
    assert_eq!(c.lines_added, Some(3));
    assert_eq!(c.lines_deleted, Some(2));
}

#[test]
fn missing_parts_of_a_commit_get_their_stand_ins() {
    let history = vec![RawCommit {
        hash: "abc".to_string(),
        author_name: None,
        author_email: None,
        seconds: 0,
        message: None,
        parent_count: 2,
        diff: None,
    }];
    let commits = extract_commits_from_repo(&history, &None).unwrap();
    let c = &commits[0];
    assert_eq!(c.repository_url, "unknown");
    assert_eq!(c.author, "Unknown");
    assert_eq!(c.author_email, "unknown@example.com");
    assert_eq!(c.message, "");
    assert!(c.files_changed.is_empty());
    assert_eq!(c.lines_added, None);
    assert_eq!(c.lines_deleted, None);
}

#[test]
fn a_root_commit_reports_no_statistics() {
    let mut root = raw("aaaa", 10);
    root.parent_count = 0;
    let commits = extract_commits_from_repo(&vec![raw("bbbb", 20), root], &None).unwrap();
    assert_eq!(commits.len(), 2);
    assert_eq!(commits[0].lines_added, Some(3));
    assert_eq!(commits[1].hash, "aaaa");
    assert_eq!(commits[1].lines_added, None);
    assert_eq!(commits[1].lines_deleted, None);
    assert!(commits[1].files_changed.is_empty());
}

#[test]
fn an_empty_history_gives_no_commits() {
    assert!(extract_commits_from_repo(&vec![], &None).unwrap().is_empty());
}

#[test]
fn marks_are_counted() {
    assert_eq!(count_marks(&vec![], '+'), 0);
    assert_eq!(count_marks(&vec!['+', '+', '-', ' '], '+'), 2);
    assert_eq!(count_marks(&vec!['+', '+', '-', ' '], '-'), 1);
    assert_eq!(count_marks(&vec!['+', '+', '-', ' '], '>'), 0);
}

#[test]
fn a_diff_can_be_too_large_to_count() {
    assert_eq!(line_counts(0, 0, "abc"), Ok((0, 0)));
    assert_eq!(line_counts(2147483647, 12, "abc"), Ok((2147483647, 12)));
    assert_eq!(line_counts(2147483648, 12, "abc"), Err(Error::DiffTooLarge("abc".to_string())));
    assert_eq!(line_counts(1, usize::MAX, "abc"), Err(Error::DiffTooLarge("abc".to_string())));
    assert_eq!(
        Error::DiffTooLarge("abc".to_string()).message(),
        "Too many changed lines in commit abc"
    );
}

#[test]
fn commit_record_keeps_the_date_it_is_given() {
    let c = commit_record(&raw("abcd", 5), "https://x/r", "some date".to_string()).unwrap();
    assert_eq!(c.date, "some date");
    assert_eq!(c.repository_url, "https://x/r");
}

#[test]
fn details_of_one_commit() {
    let found = get_commit_details("abc123", &raw("abc123def4567890", 0), &None).unwrap().unwrap();
    assert_eq!(found.hash, "abc123");
    assert_eq!(found.repository_url, "unknown");
    assert_eq!(found.date, "1970-01-01T00:00:00+00:00");
    assert_eq!(found.lines_added, Some(3));
    let full = "0123456789abcdefABCDEF0123456789abcdef01";
    assert!(get_commit_details(full, &raw(full, 0), &None).is_ok());
}

#[test]
fn a_text_that_is_no_commit_hash_is_refused() {
    let r = raw("abc123def4567890", 0);
    assert_eq!(
        get_commit_details("not-a-hash", &r, &None).err(),
        Some(Error::InvalidCommitHash("not-a-hash".to_string()))
    );
    assert_eq!(
        get_commit_details("", &r, &None).err(),
        Some(Error::InvalidCommitHash(String::new()))
    );
    let long = "0123456789abcdef0123456789abcdef012345678";
    assert_eq!(
        get_commit_details(long, &r, &None).err(),
        Some(Error::InvalidCommitHash(long.to_string()))
    );
    assert_eq!(
        get_commit_details("abcg", &r, &None).err(),
        Some(Error::InvalidCommitHash("abcg".to_string()))
    );
}

#[test]
fn a_listed_prefix_claims_a_commit() {
    let ids = vec!["abc123".to_string(), "ffff".to_string()];
    assert!(lists_prefix_of(&ids, "abc123def456"));
    assert!(lists_prefix_of(&ids, "ffff"));
    assert!(!lists_prefix_of(&ids, "abc12"));
    assert!(!lists_prefix_of(&ids, "xabc123"));
    assert!(!lists_prefix_of(&vec![], "abc123"));
    assert!(lists_prefix_of(&vec![String::new()], "abc123"));
    let c = contribution("u", "n", 1, &["aaa"], &["bbb"]);
    assert!(claims_commit(&c, "aaa111"));
    assert!(claims_commit(&c, "bbb111"));
    assert!(!claims_commit(&c, "ccc111"));
}

#[test]
fn a_commit_belongs_to_the_contribution_that_lists_its_prefix() {
    let mut db = store_with_repository("https://x/r");
    let id = db.add_contribution(&contribution("https://x/r", "Feature", 5, &["abc123"], &[])).unwrap();
    assert_eq!(assign(&db, "https://x/r", "abc123def4567890abc123def4567890abc123de"), Some(id));
    assert_eq!(assign(&db, "https://x/r", "def4567890abc123def4567890abc123deabc123"), None);
    assert_eq!(assign(&db, "https://x/r", "abc12"), None);
}

#[test]
fn a_related_commit_claims_as_a_key_commit_does() {
    let mut db = store_with_repository("https://x/r");
    let id = db.add_contribution(&contribution("https://x/r", "Feature", 5, &[], &["9f"])).unwrap();
    assert_eq!(assign(&db, "https://x/r", "9f00"), Some(id));
}

#[test]
fn the_first_listed_claimant_has_the_commit() {
    let mut db = store_with_repository("https://x/r");
    let low = db.add_contribution(&contribution("https://x/r", "aaa", 3, &["abc"], &[])).unwrap();
    let high = db.add_contribution(&contribution("https://x/r", "zzz", 9, &["ab"], &[])).unwrap();
    assert_eq!(assign(&db, "https://x/r", "abcdef"), Some(high));
    let mid_b = db.add_contribution(&contribution("https://x/r", "b", 9, &["abc"], &[])).unwrap();
    assert_eq!(assign(&db, "https://x/r", "abcdef"), Some(mid_b));
    assert_ne!(low, high);
    assert_eq!(assign(&db, "https://x/r", "abx"), Some(high));
}

#[test]
fn a_commit_of_another_repository_is_not_claimed() {
    let mut db = store_with_repository("https://x/r");
    db.add_contribution(&contribution("https://x/other", "Feature", 5, &["abc"], &[])).unwrap();
    assert_eq!(assign(&db, "https://x/r", "abcdef"), None);
    assert_eq!(assign(&db, "https://x/other", "abcdef"), None);
    db.add_repository(&Repository {
        url: "https://x/other".to_string(),
        organization: "o".to_string(),
        name: "other".to_string(),
        description: None,
    });
    assert_eq!(assign(&db, "https://x/other", "abcdef"), Some(1));
}

#[test]
fn a_commit_that_is_claimed_no_more_belongs_to_none() {
    let mut db = store_with_repository("https://x/r");
    let id = db.add_contribution(&contribution("https://x/r", "Feature", 5, &["abc"], &[])).unwrap();
    let commits = extract_commits_from_repo(&vec![raw("abcdef", 0)], &Some("https://x/r".to_string()))
        .unwrap();
    record_commit(&mut db, &commits[0]);
    assert_eq!(db.snapshot().commits[0].contribution_id, Some(id));
    db.add_contribution(&contribution("https://x/r", "Feature", 5, &["fff"], &[])).unwrap();
    record_commit(&mut db, &commits[0]);
    assert_eq!(db.snapshot().commits.len(), 1);
    assert_eq!(db.snapshot().commits[0].contribution_id, None);
}

#[test]
fn update_reports_every_tenth_commit() {
    let mut db = store_with_repository("https://x/r");
    let history: Vec<RawCommit> = (0..21).map(|i| raw(&format!("{:040x}", i), i)).collect();
    let text = update_command(&mut db, &history, &Some("https://x/r".to_string())).unwrap();
    assert_eq!(
        text,
        "Found 21 commits to process\nProcessed 10 commits...\nProcessed 20 commits...\nUpdate complete: 21 processed\n"
    );
    assert_eq!(db.get_statistics().commits, 21);
    let text = update_command(&mut db, &vec![], &None).unwrap();
    assert_eq!(text, "Found 0 commits to process\nUpdate complete: 0 processed\n");
    assert_eq!(db.get_statistics().commits, 21);
}

#[test]
fn from_init_to_query_commits() {
    let url = "https://github.com/acme/tool";
    let mut db = Database::open(Snapshot::new()).unwrap();
    let mut config = Config::new();
    let text = init_command(&mut db, &mut config, url, "acme", "tool", &None);
    assert_eq!(text, "Repository initialized successfully!\n  URL: https://github.com/acme/tool\n");
    assert_eq!(config.repositories.get(url).unwrap().organization, "acme");
    let text = add_command(
        &mut db,
        url,
        "Parser",
        "A parser",
        "Parses things",
        "a1b2c3",
        &None,
        "Core Feature",
        7,
    )
    .unwrap();
    assert_eq!(text, "Contribution 'Parser' added successfully!\n");
    let history = vec![
        raw("ffffffffffffffffffffffffffffffffffffffff", 1700000100),
        raw("a1b2c3d4e5f60718293a4b5c6d7e8f9012345678", 1700000000),
    ];
    update_command(&mut db, &history, &Some(url.to_string())).unwrap();
    let commits = db.get_commits_for_contribution(url, "Parser");
    assert_eq!(commits.len(), 1);
    assert_eq!(commits[0].hash, "a1b2c3d4e5f60718293a4b5c6d7e8f9012345678");
    assert_eq!(commits[0].author, "Ann Author");
    assert_eq!(commits[0].date, "2023-11-14T22:13:20+00:00");
    assert_eq!(commits[0].message, "Add the thing\n");
    assert_eq!(
        query_commits(&db, url, "Parser"),
        "\nCommits for 'Parser'\n================================================================================\n\n* a1b2c3d4\n  Author: Ann Author <ann@example.com>\n  Date: 2023-11-14T22:13:20+00:00\n  Message: Add the thing\n\n  Changes: +3 -2\n"
    );
    assert_eq!(query_commits(&db, url, "Other"), "No commits found for contribution 'Other'\n");
}
