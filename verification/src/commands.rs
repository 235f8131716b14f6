//! The commands: what each does to the store and to the configuration,
//! and the text that it prints.

use vstd::prelude::*;
use crate::config::{Config, Organization, OrganizationView, RepositoryConfig, RepositoryConfigView};
use crate::database::{
    lemma_organization_entry_put, lemma_repository_entry_put, organization_entries,
    put_repositories, repository_entries, summaries, Database,
};
use crate::error::{Error, ErrorView};
use crate::git::{
    commit_of, countable, date_text, extract_commits_from_repo, uncountable, unknown_repository,
    RawCommit, RawCommitView,
};
use crate::markdown::{document, entry_views, generate_markdown};
use crate::model::{
    clone_opt, views, AgentRule, Commit, CommitView, Contribution, ContributionView, Loadout,
    Prompt, Repository, RepositoryView,
};
use crate::order::listed;
use crate::reconcile::{record_commit, recorded};
use crate::report::{
    briefing, briefing_text, commits_report, commits_text, contribution_report, contribution_text,
    contributions_report, contributions_text, count_views, loadouts_report, loadouts_text,
    progress_lines, repositories_report, repositories_text, statistics_report, statistics_text,
    update_report,
};
use crate::state::{every, first_match, of_repository, DatabaseView};
use crate::table::with_entry;
use crate::text::{decimal, list_entries, opt_text, push_decimal, split_list};
pub use crate::utils::locations_command;

verus! {

/// The repository that the arguments of a command describe.
pub open spec fn repository_view(
    url: Seq<char>,
    organization: Seq<char>,
    name: Seq<char>,
    description: Option<Seq<char>>,
) -> RepositoryView {
    RepositoryView { url: url, organization: organization, name: name, description: description }
}

/// The configuration entry that the arguments of a command describe.
pub open spec fn repository_config_view(
    organization: Seq<char>,
    name: Seq<char>,
    description: Option<Seq<char>>,
) -> RepositoryConfigView {
    RepositoryConfigView { organization: organization, name: name, description: description }
}

/// Registers a repository: stores it, and puts it into the configuration
/// under its URL.
pub fn init_command(
    db: &mut Database,
    config: &mut Config,
    repo_url: &str,
    org: &str,
    name: &str,
    description: &Option<String>,
) -> (r: String)
    ensures
        final(db)@ == old(db)@.put_repository(
            repository_view(repo_url@, org@, name@, opt_text(*description)),
        ),
        final(db)@.wf(),
        repository_entries(final(config).repositories.rows()) == with_entry(
            repository_entries(old(config).repositories.rows()),
            repo_url@,
            repository_config_view(org@, name@, opt_text(*description)),
        ),
        final(config).organizations.rows() == old(config).organizations.rows(),
        r@ == "Repository initialized successfully!\n  URL: "@ + repo_url@ + "\n"@,
{
    let repo = Repository {
        url: String::from_str(repo_url),
        organization: String::from_str(org),
        name: String::from_str(name),
        description: clone_opt(description),
    };
    db.add_repository(&repo);
    let entry = RepositoryConfig {
        organization: String::from_str(org),
        name: String::from_str(name),
        description: clone_opt(description),
    };
    proof {
        lemma_repository_entry_put(config.repositories.rows(), repo_url@, entry);
    }
    config.repositories.insert(String::from_str(repo_url), entry);
    let mut out = String::from_str("Repository initialized successfully!\n  URL: ");
    out.append(repo_url);
    out.append("\n");
    out
}

/// The contribution that the arguments of the `add` command describe: it
/// lists the entries of its two comma-separated lists, and has neither
/// technical details nor resume bullets.
pub open spec fn new_contribution(
    url: Seq<char>,
    name: Seq<char>,
    overview: Seq<char>,
    description: Seq<char>,
    key_commits: Seq<char>,
    related_commits: Option<Seq<char>>,
    category: Seq<char>,
    priority: u8,
) -> ContributionView {
    ContributionView {
        id: None,
        repository_url: url,
        name: name,
        overview: overview,
        description: description,
        key_commits: list_entries(key_commits),
        related_commits: match related_commits {
            Some(t) => list_entries(t),
            None => Seq::empty(),
        },
        technical_details: Seq::empty(),
        resume_bullets: Seq::empty(),
        category: category,
        priority: priority,
    }
}

/// Stores a contribution under its repository's URL and its name.
pub fn add_command(
    db: &mut Database,
    repo_url: &str,
    name: &str,
    overview: &str,
    description: &str,
    key_commits: &str,
    related_commits: &Option<String>,
    category: &str,
    priority: u8,
) -> (r: Result<String, Error>)
    ensures
        r is Ok <==> old(db)@.can_put_contribution(
            new_contribution(
                repo_url@,
                name@,
                overview@,
                description@,
                key_commits@,
                opt_text(*related_commits),
                category@,
                priority,
            ),
        ),
        r is Ok ==> final(db)@ == old(db)@.put_contribution(
            new_contribution(
                repo_url@,
                name@,
                overview@,
                description@,
                key_commits@,
                opt_text(*related_commits),
                category@,
                priority,
            ),
        ) && r->Ok_0@ == "Contribution '"@ + name@ + "' added successfully!\n"@,
        r is Err ==> final(db)@ == old(db)@ && r->Err_0@ == ErrorView::IdsExhausted,
        final(db)@.wf(),
{
    let related = match related_commits {
        Some(t) => split_list(t.as_str()),
        None => Vec::new(),
    };
    let contribution = Contribution {
        id: None,
        repository_url: String::from_str(repo_url),
        name: String::from_str(name),
        overview: String::from_str(overview),
        description: String::from_str(description),
        key_commits: split_list(key_commits),
        related_commits: related,
        technical_details: Vec::new(),
        resume_bullets: Vec::new(),
        category: String::from_str(category),
        priority,
    };
    proof {
        let c = new_contribution(
            repo_url@,
            name@,
            overview@,
            description@,
            key_commits@,
            opt_text(*related_commits),
            category@,
            priority,
        );
        assert(contribution@.related_commits =~= c.related_commits);
        assert(contribution@.technical_details =~= c.technical_details);
        assert(contribution@.resume_bullets =~= c.resume_bullets);
        assert(contribution@ == c);
    }
    match db.add_contribution(&contribution) {
        Ok(_) => {
            let mut out = String::from_str("Contribution '");
            out.append(name);
            out.append("' added successfully!\n");
            Ok(out)
        },
        Err(e) => Err(e),
    }
}

/// The commit records of `history` in the repository that `origin_url`
/// identifies.
pub open spec fn extracted(history: Seq<RawCommitView>, origin_url: Option<Seq<char>>) -> Seq<
    CommitView,
> {
    Seq::new(
        history.len(),
        |i: int|
            commit_of(
                history[i],
                match origin_url {
                    Some(u) => u,
                    None => unknown_repository(),
                },
                date_text(history[i].seconds as int),
            ),
    )
}

/// Updates the store from a history: records every commit of it with the
/// contribution that it belongs to, in the order of the history, in place
/// of what the store held under the same hash. Where a commit of the
/// history cannot be recorded, nothing is.
pub fn update_command(db: &mut Database, history: &Vec<RawCommit>, origin_url: &Option<String>) -> (r:
    Result<String, Error>)
    ensures
        r is Ok <==> forall|i: int|
            0 <= i < history@.len() ==> countable(#[trigger] views(history@)[i]),
        r is Ok ==> final(db)@ == recorded(
            old(db)@,
            extracted(views(history@), opt_text(*origin_url)),
        ) && r->Ok_0@ == update_report(history@.len()),
        r is Err ==> final(db)@ == old(db)@ && r->Err_0@ == ErrorView::DiffTooLarge(
            views(history@)[first_match(views(history@), uncountable())].hash,
        ),
        final(db)@.wf(),
{
    let commits = match extract_commits_from_repo(history, origin_url) {
        Ok(commits) => commits,
        Err(e) => {
            db.recall_store();
            return Err(e);
        },
    };
    let ghost all = extracted(views(history@), opt_text(*origin_url));
    assert(views(commits@) =~= all);
    let mut out = String::from_str("Found ");
    push_decimal(&mut out, commits.len() as u64);
    out.append(" commits to process\n");
    let ghost start = out@;
    let mut processed: usize = 0;
    db.recall_store();
    proof {
        assert(all.take(0) =~= Seq::<CommitView>::empty());
        assert(out@ =~= start + progress_lines(0));
    }
    while processed < commits.len()
        invariant
            processed <= commits@.len(),
            all == views(commits@),
            db@ == recorded(old(db)@, all.take(processed as int)),
            db@.wf(),
            out@ == start + progress_lines(processed as nat),
        decreases commits@.len() - processed,
    {
        proof {
            assert(all.take(processed + 1).drop_last() =~= all.take(processed as int));
            assert(all.take(processed + 1).last() == commits@[processed as int]@);
        }
        record_commit(db, &commits[processed]);
        processed += 1;
        if processed % 10 == 0 {
            out.append("Processed ");
            push_decimal(&mut out, processed as u64);
            out.append(" commits...\n");
            assert(out@ =~= start + progress_lines(processed as nat));
        }
    }
    assert(all.take(commits@.len() as int) =~= all);
    out.append("Update complete: ");
    push_decimal(&mut out, processed as u64);
    out.append(" processed\n");
    assert(out@ =~= update_report(history@.len()));
    Ok(out)
}

/// What the `generate` command gives: the document to write, where the
/// repository has contributions, and the text to print.
#[derive(Debug)]
pub struct Generated {
    pub document: Option<String>,
    pub message: String,
}

/// The contributions of the repository `url`, in the order of their
/// listing, each with the commits that belong to it, the latest first.
pub open spec fn documented(db: DatabaseView, url: Seq<char>) -> Seq<
    (ContributionView, Seq<CommitView>),
> {
    let rows = listed::<Contribution>(db.contributions, of_repository(url));
    Seq::new(rows.len(), |i: int| (rows[i], db.commits_of(url, rows[i].name)))
}

/// What the `generate` command prints after it made a document of
/// `count` contributions for the file `output`.
pub open spec fn generated_message(output: Seq<char>, count: nat) -> Seq<char> {
    "Generated contributions markdown: "@ + output + "\n  "@ + decimal(count)
        + " contributions documented\n"@
}

/// Makes the document of the contributions to the repository `repo_url`,
/// to be written to the file `output`. A repository without contributions
/// gets no document.
pub fn generate_command(db: &Database, repo_url: &str, output: &str, author: &Option<String>) -> (r:
    Generated)
    ensures
        documented(db@, repo_url@).len() == 0 ==> r.document is None && r.message@
            == "No contributions found for repository: "@ + repo_url@ + "\n"@,
        documented(db@, repo_url@).len() > 0 ==> r.document is Some && r.document->0@ == document(
            repo_url@,
            documented(db@, repo_url@),
            opt_text(*author),
        ) && r.message@ == generated_message(output@, documented(db@, repo_url@).len()),
{
    let contributions = db.get_contributions(repo_url);
    if contributions.len() == 0 {
        let mut message = String::from_str("No contributions found for repository: ");
        message.append(repo_url);
        message.append("\n");
        return Generated { document: None, message };
    }
    let ghost all = documented(db@, repo_url@);
    let mut entries: Vec<(Contribution, Vec<Commit>)> = Vec::new();
    let mut i: usize = 0;
    assert(entry_views(entries@) =~= all.take(0));
    while i < contributions.len()
        invariant
            i <= contributions@.len(),
            all == documented(db@, repo_url@),
            views(contributions@) == listed::<Contribution>(
                db@.contributions,
                of_repository(repo_url@),
            ),
            entry_views(entries@) == all.take(i as int),
        decreases contributions@.len() - i,
    {
        let ghost before = entry_views(entries@);
        let commits = db.get_commits_for_contribution(
            repo_url,
            contributions[i].name.as_str(),
        );
        let copy = contributions[i].clone();
        proof {
            assert(views(contributions@)[i as int] == contributions@[i as int]@);
        }
        entries.push((copy, commits));
        assert(entry_views(entries@) =~= before.push(all[i as int]));
        assert(all.take(i + 1) =~= all.take(i as int).push(all[i as int]));
        i += 1;
    }
    assert(all.take(contributions@.len() as int) =~= all);
    let document = generate_markdown(repo_url, &entries, author);
    let mut message = String::from_str("Generated contributions markdown: ");
    message.append(output);
    message.append("\n  ");
    push_decimal(&mut message, contributions.len() as u64);
    message.append(" contributions documented\n");
    Generated { document: Some(document), message }
}

/// Lists the contributions of the repository `repo_url`.
pub fn query_contributions(db: &Database, repo_url: &str) -> (r: String)
    ensures
        r@ == contributions_report(
            repo_url@,
            listed::<Contribution>(db@.contributions, of_repository(repo_url@)),
        ),
{
    let contributions = db.get_contributions(repo_url);
    contributions_text(repo_url, &contributions)
}

/// Reports on the contribution named `name` of the repository
/// `repo_url`. It fails where there is none.
pub fn query_contribution(db: &Database, repo_url: &str, name: &str) -> (r: Result<String, Error>)
    ensures
        r is Ok <==> db@.has_contribution(repo_url@, name@),
        r is Ok ==> r->Ok_0@ == contribution_report(
            db@.contributions[db@.contribution_at(repo_url@, name@)],
        ),
        r is Err ==> r->Err_0@ == ErrorView::ContributionNotFound(name@),
{
    match db.get_contribution(repo_url, name) {
        Some(c) => Ok(contribution_text(&c)),
        None => Err(Error::ContributionNotFound(String::from_str(name))),
    }
}

/// Lists the commits that belong to the contribution named `name` of the
/// repository `repo_url`.
pub fn query_commits(db: &Database, repo_url: &str, name: &str) -> (r: String)
    ensures
        r@ == commits_report(name@, db@.commits_of(repo_url@, name@)),
{
    let commits = db.get_commits_for_contribution(repo_url, name);
    commits_text(name, &commits)
}

/// Reports how many rows each table of the store holds.
pub fn query_stats(db: &Database) -> (r: String)
    ensures
        r@ == statistics_report(
            db@.repositories.len(),
            db@.contributions.len(),
            db@.commits.len(),
            db@.agent_rules.len(),
            db@.prompts.len(),
        ),
{
    let stats = db.get_statistics();
    statistics_text(&stats)
}

/// How many contributions each of `repos` has.
pub open spec fn contribution_counts(db: DatabaseView, repos: Seq<RepositoryView>) -> Seq<nat> {
    Seq::new(
        repos.len(),
        |i: int| listed::<Contribution>(db.contributions, of_repository(repos[i].url)).len(),
    )
}

/// Lists the repositories, each with the number of its contributions
/// where `detailed` is set.
pub fn list_repositories(db: &Database, detailed: bool) -> (r: String)
    ensures
        r@ == repositories_report(
            listed::<Repository>(db@.repositories, every()),
            if detailed {
                Some(
                    contribution_counts(db@, listed::<Repository>(db@.repositories, every())),
                )
            } else {
                None
            },
        ),
{
    let repos = db.get_all_repositories();
    if !detailed {
        return repositories_text(&repos, &None);
    }
    let ghost all = views(repos@);
    let mut counts: Vec<usize> = Vec::new();
    let mut i: usize = 0;
    while i < repos.len()
        invariant
            i <= repos@.len(),
            all == views(repos@),
            counts@.len() == i,
            forall|j: int|
                0 <= j < i ==> counts@[j] as nat == #[trigger] contribution_counts(db@, all)[j],
        decreases repos@.len() - i,
    {
        let contributions = db.get_contributions(repos[i].url.as_str());
        proof {
            assert(all[i as int].url == repos@[i as int].url@);
            assert(views(contributions@).len() == contributions@.len());
        }
        counts.push(contributions.len());
        i += 1;
    }
    let shown = Some(counts);
    assert(count_views(shown)->0 =~= contribution_counts(db@, all));
    repositories_text(&repos, &shown)
}

/// Writes what the store says into a configuration, to be kept in the
/// file `config_path`.
pub fn config_sync_command(db: &Database, config_path: &str) -> (r: (Config, String))
    ensures
        organization_entries(r.0.organizations.rows()) == crate::database::organizations_config(
            crate::database::organizations_of(listed::<Repository>(db@.repositories, every())),
        ),
        repository_entries(r.0.repositories.rows()) == crate::database::repositories_config(
            listed::<Repository>(db@.repositories, every()),
        ),
        r.1@ == "Configuration synced to: "@ + config_path@ + "\n"@,
{
    let config = db.load_config_from_db();
    let mut out = String::from_str("Configuration synced to: ");
    out.append(config_path);
    out.append("\n");
    (config, out)
}

/// Puts the repositories of the configuration that was read from the
/// file `config_path` into the store. It fails where no configuration
/// was found there.
pub fn config_load_command(db: &mut Database, config: &Option<Config>, config_path: &str) -> (r:
    Result<String, Error>)
    ensures
        *config is Some ==> r is Ok && final(db)@ == put_repositories(
            old(db)@,
            repository_entries(config->0.repositories.rows()),
        ) && r->Ok_0@ == "Configuration loaded from: "@ + config_path@ + "\n"@,
        *config is None ==> r is Err && r->Err_0@ == ErrorView::ConfigNotFound(config_path@)
            && final(db)@ == old(db)@,
        final(db)@.wf(),
{
    match config {
        Some(c) => {
            db.load_config_to_db(c);
            let mut out = String::from_str("Configuration loaded from: ");
            out.append(config_path);
            out.append("\n");
            Ok(out)
        },
        None => {
            db.recall_store();
            Err(Error::ConfigNotFound(String::from_str(config_path)))
        },
    }
}

/// Puts an organization into the configuration under the identifier
/// `id`, and the repositories of the configuration into the store.
pub fn config_add_org_command(
    db: &mut Database,
    config: &mut Config,
    id: &str,
    name: &str,
    description: &Option<String>,
) -> (r: String)
    ensures
        organization_entries(final(config).organizations.rows()) == with_entry(
            organization_entries(old(config).organizations.rows()),
            id@,
            OrganizationView { name: name@, description: opt_text(*description) },
        ),
        final(config).repositories.rows() == old(config).repositories.rows(),
        final(db)@ == put_repositories(
            old(db)@,
            repository_entries(old(config).repositories.rows()),
        ),
        final(db)@.wf(),
        r@ == "Organization '"@ + id@ + "' added\n"@,
{
    let entry = Organization { name: String::from_str(name), description: clone_opt(description) };
    proof {
        lemma_organization_entry_put(config.organizations.rows(), id@, entry);
    }
    config.organizations.insert(String::from_str(id), entry);
    db.load_config_to_db(config);
    let mut out = String::from_str("Organization '");
    out.append(id);
    out.append("' added\n");
    out
}

/// Puts a repository into the configuration under its URL, and into the
/// store.
pub fn config_add_repo_command(
    db: &mut Database,
    config: &mut Config,
    url: &str,
    org: &str,
    name: &str,
    description: &Option<String>,
) -> (r: String)
    ensures
        final(db)@ == old(db)@.put_repository(
            repository_view(url@, org@, name@, opt_text(*description)),
        ),
        final(db)@.wf(),
        repository_entries(final(config).repositories.rows()) == with_entry(
            repository_entries(old(config).repositories.rows()),
            url@,
            repository_config_view(org@, name@, opt_text(*description)),
        ),
        final(config).organizations.rows() == old(config).organizations.rows(),
        r@ == "Repository added\n"@,
{
    let entry = RepositoryConfig {
        organization: String::from_str(org),
        name: String::from_str(name),
        description: clone_opt(description),
    };
    proof {
        lemma_repository_entry_put(config.repositories.rows(), url@, entry);
    }
    config.repositories.insert(String::from_str(url), entry);
    let repo = Repository {
        url: String::from_str(url),
        organization: String::from_str(org),
        name: String::from_str(name),
        description: clone_opt(description),
    };
    db.add_repository(&repo);
    String::from_str("Repository added\n")
}

/// Lists the loadouts.
pub fn loadout_list_command(db: &Database) -> (r: String)
    ensures
        r@ == loadouts_report(summaries(listed::<Loadout>(db@.loadouts, every()))),
{
    let loadouts = db.list_loadouts();
    loadouts_text(&loadouts)
}

/// Makes a loadout named `name` that holds nothing. It fails where a
/// loadout has this name already.
pub fn loadout_create_command(db: &mut Database, name: &str) -> (r: Result<String, Error>)
    ensures
        old(db)@.has_loadout(name@) ==> r is Err && r->Err_0@ == ErrorView::LoadoutExists(name@),
        !old(db)@.has_loadout(name@) && old(db)@.next_loadout_id == i64::MAX ==> r is Err
            && r->Err_0@ == ErrorView::IdsExhausted,
        !old(db)@.has_loadout(name@) && old(db)@.next_loadout_id < i64::MAX ==> r is Ok && final(db)@ == old(db)@.create_loadout(name@) && r->Ok_0@ == "Loadout '"@ + name@ + "' created\n"@,
        r is Err ==> final(db)@ == old(db)@,
        final(db)@.wf(),
{
    match db.create_loadout(name) {
        Ok(_) => {
            let mut out = String::from_str("Loadout '");
            out.append(name);
            out.append("' created\n");
            Ok(out)
        },
        Err(e) => Err(e),
    }
}

/// Deletes every prompt and every rule that the loadout named `name`
/// does not hold. It fails where there is no such loadout.
pub fn loadout_load_command(db: &mut Database, name: &str) -> (r: Result<String, Error>)
    ensures
        !old(db)@.has_loadout(name@) ==> r is Err && r->Err_0@ == ErrorView::LoadoutNotFound(
            name@,
        ) && final(db)@ == old(db)@,
        old(db)@.has_loadout(name@) ==> r is Ok && final(db)@ == old(db)@.load_loadout(name@)
            && r->Ok_0@ == "Loadout '"@ + name@ + "' loaded\n"@,
        final(db)@.wf(),
{
    match db.load_loadout(name) {
        Ok(()) => {
            let mut out = String::from_str("Loadout '");
            out.append(name);
            out.append("' loaded\n");
            Ok(out)
        },
        Err(e) => Err(e),
    }
}

/// The store in which a loadout named `name` exists: the store itself,
/// or the store with a new loadout of that name.
pub open spec fn with_loadout(db: DatabaseView, name: Seq<char>) -> DatabaseView {
    if db.has_loadout(name) {
        db
    } else {
        db.create_loadout(name)
    }
}

/// Makes the loadout named `name` hold every prompt and every rule that
/// is stored; the loadout is made where there is none of that name.
pub fn loadout_save_command(db: &mut Database, name: &str) -> (r: Result<String, Error>)
    ensures
        r is Ok <==> old(db)@.has_loadout(name@) || old(db)@.next_loadout_id < i64::MAX,
        r is Ok ==> final(db)@ == with_loadout(old(db)@, name@).save_current_to_loadout(name@)
            && r->Ok_0@ == "Current prompts and rules saved to loadout '"@ + name@ + "'\n"@,
        r is Err ==> r->Err_0@ == ErrorView::IdsExhausted && final(db)@ == old(db)@,
        final(db)@.wf(),
{
    if db.get_loadout_id(name).is_none() {
        match db.create_loadout(name) {
            Ok(_) => {
                proof {
                    crate::state::lemma_first_match_found(
                        db@.loadouts,
                        crate::state::loadout_named(name@),
                        db@.loadouts.len() - 1,
                    );
                }
            },
            Err(e) => {
                return Err(e);
            },
        }
    }
    match db.save_current_to_loadout(name) {
        Ok(()) => {
            let mut out = String::from_str("Current prompts and rules saved to loadout '");
            out.append(name);
            out.append("'\n");
            Ok(out)
        },
        Err(e) => Err(e),
    }
}

/// Deletes the loadout named `name`. It fails where there is none, and
/// where it is the default loadout; the store is then as it was.
pub fn loadout_delete_command(db: &mut Database, name: &str) -> (r: Result<String, Error>)
    ensures
        !old(db)@.has_loadout(name@) ==> r is Err && r->Err_0@ == ErrorView::LoadoutNotFound(
            name@,
        ),
        old(db)@.has_loadout(name@) && old(db)@.loadouts[old(db)@.loadout_at(name@)].is_default
            ==> r is Err && r->Err_0@ == ErrorView::DefaultLoadout,
        old(db)@.has_loadout(name@) && !old(db)@.loadouts[old(db)@.loadout_at(name@)].is_default
            ==> r is Ok && final(db)@ == old(db)@.delete_loadout(name@) && r->Ok_0@ == "Loadout '"@
            + name@ + "' deleted\n"@,
        r is Err ==> final(db)@ == old(db)@,
        final(db)@.wf(),
{
    match db.delete_loadout(name) {
        Ok(()) => {
            let mut out = String::from_str("Loadout '");
            out.append(name);
            out.append("' deleted\n");
            Ok(out)
        },
        Err(e) => Err(e),
    }
}

/// Loads the loadout named `default`.
pub fn loadout_reload_default_command(db: &mut Database) -> (r: Result<String, Error>)
    ensures
        !old(db)@.has_loadout(crate::state::default_name()) ==> r is Err && r->Err_0@
            == ErrorView::LoadoutNotFound(crate::state::default_name()) && final(db)@ == old(db)@,
        old(db)@.has_loadout(crate::state::default_name()) ==> r is Ok && final(db)@ == old(db)@.load_loadout(crate::state::default_name()) && r->Ok_0@ == "Default loadout reloaded\n"@,
        final(db)@.wf(),
{
    match db.reload_default_loadout() {
        Ok(()) => Ok(String::from_str("Default loadout reloaded\n")),
        Err(e) => Err(e),
    }
}

/// The briefing for an agent: how to use the tool, the rules and the
/// prompts that the store holds.
pub fn ai_command(db: &Database) -> (r: String)
    ensures
        r@ == briefing(
            listed::<AgentRule>(db@.agent_rules, every()),
            listed::<Prompt>(db@.prompts, every()),
        ),
{
    let rules = db.get_all_agent_rules();
    let prompts = db.get_all_prompts();
    briefing_text(&rules, &prompts)
}

} // verus!
