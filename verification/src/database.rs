//! The store: repositories, contributions, commits, rules, prompts and
//! loadouts, kept in memory under the rules of `state`.

use vstd::prelude::*;

mod loadouts;
mod opening;
mod sync;

pub use crate::model::{Commit, Contribution, Repository};
pub use loadouts::{summaries, summary_views};
pub use sync::{
    described, lemma_organization_entry_put, lemma_repository_entry_put, organization_entries,
    organizations_config, organizations_in, organizations_of, put_repositories,
    repositories_config, repository_entries, repository_of,
};

use crate::error::{Error, ErrorView};
use crate::model::{lemma_views_push, lemma_views_update, views, AgentRule, Loadout, Prompt};
use crate::order::{is_listing, listed, listing, Record};
use crate::state::{
    every, first_match, lemma_first_match_bounds, lemma_first_match_is, of_contribution,
    of_repository, put, with_hash, with_key, with_url, DatabaseView,
};
use crate::text::lemma_lex_total;

verus! {

/// The rows of a store, as they are read from or written to the place
/// where the store is kept. Nothing is required of them.
#[derive(Debug)]
pub struct Snapshot {
    pub repositories: Vec<Repository>,
    pub contributions: Vec<Contribution>,
    pub commits: Vec<Commit>,
    pub agent_rules: Vec<AgentRule>,
    pub prompts: Vec<Prompt>,
    pub loadouts: Vec<Loadout>,
    pub next_contribution_id: i64,
    pub next_rule_id: i64,
    pub next_prompt_id: i64,
    pub next_loadout_id: i64,
}

impl View for Snapshot {
    type V = DatabaseView;

    open spec fn view(&self) -> DatabaseView {
        DatabaseView {
            repositories: views(self.repositories@),
            contributions: views(self.contributions@),
            commits: views(self.commits@),
            agent_rules: views(self.agent_rules@),
            prompts: views(self.prompts@),
            loadouts: views(self.loadouts@),
            next_contribution_id: self.next_contribution_id,
            next_rule_id: self.next_rule_id,
            next_prompt_id: self.next_prompt_id,
            next_loadout_id: self.next_loadout_id,
        }
    }
}

/// How many rows each table of the store holds.
#[derive(Debug, PartialEq, Eq)]
pub struct Statistics {
    pub repositories: usize,
    pub contributions: usize,
    pub commits: usize,
    pub agent_rules: usize,
    pub prompts: usize,
}

/// The store. Its rows keep their keys, and exactly one of its loadouts is
/// the default, from the moment it is opened.
pub struct Database {
    rows: Snapshot,
}

impl View for Database {
    type V = DatabaseView;

    closed spec fn view(&self) -> DatabaseView {
        self.rows@
    }
}

/// The place of the repository with the URL `url`.
pub(crate) fn find_repository(rows: &Vec<Repository>, url: &str) -> (r: usize)
    ensures
        r == first_match(views(rows@), with_url(url@)),
        r <= rows@.len(),
        r < rows@.len() ==> rows@[r as int].url@ == url@,
{
    let mut i: usize = 0;
    while i < rows.len() && !rows[i].url.as_str().eq(url)
        invariant
            i <= rows@.len(),
            forall|j: int| 0 <= j < i ==> rows@[j].url@ != url@,
        decreases rows@.len() - i,
    {
        i += 1;
    }
    proof {
        let all = views(rows@);
        assert forall|j: int| 0 <= j < i implies !with_url(url@)(#[trigger] all[j]) by {
            assert(all[j].url == rows@[j].url@);
        }
        lemma_first_match_is(all, with_url(url@), i as int);
    }
    i
}

/// The place of the contribution named `name` of the repository `url`.
pub(crate) fn find_contribution(rows: &Vec<Contribution>, url: &str, name: &str) -> (r: usize)
    ensures
        r == first_match(views(rows@), with_key(url@, name@)),
        r <= rows@.len(),
        r < rows@.len() ==> rows@[r as int].repository_url@ == url@ && rows@[r as int].name@
            == name@,
{
    let mut i: usize = 0;
    while i < rows.len() && !(rows[i].repository_url.as_str().eq(url) && rows[i].name.as_str().eq(
        name,
    ))
        invariant
            i <= rows@.len(),
            forall|j: int|
                0 <= j < i ==> !(rows@[j].repository_url@ == url@ && rows@[j].name@ == name@),
        decreases rows@.len() - i,
    {
        i += 1;
    }
    proof {
        let all = views(rows@);
        assert forall|j: int| 0 <= j < i implies !with_key(url@, name@)(#[trigger] all[j]) by {
            assert(all[j].name == rows@[j].name@);
        }
        lemma_first_match_is(all, with_key(url@, name@), i as int);
    }
    i
}

/// The place of the commit with the hash `hash`.
pub(crate) fn find_commit(rows: &Vec<Commit>, hash: &str) -> (r: usize)
    ensures
        r == first_match(views(rows@), with_hash(hash@)),
        r <= rows@.len(),
        r < rows@.len() ==> rows@[r as int].hash@ == hash@,
{
    let mut i: usize = 0;
    while i < rows.len() && !rows[i].hash.as_str().eq(hash)
        invariant
            i <= rows@.len(),
            forall|j: int| 0 <= j < i ==> rows@[j].hash@ != hash@,
        decreases rows@.len() - i,
    {
        i += 1;
    }
    proof {
        let all = views(rows@);
        assert forall|j: int| 0 <= j < i implies !with_hash(hash@)(#[trigger] all[j]) by {
            assert(all[j].hash == rows@[j].hash@);
        }
        lemma_first_match_is(all, with_hash(hash@), i as int);
    }
    i
}

/// Putting a repository under its URL keeps the URLs apart.
pub proof fn lemma_put_repository_wf(db: DatabaseView, r: crate::model::RepositoryView)
    requires
        db.rows_wf(),
    ensures
        db.put_repository(r).rows_wf(),
        db.put_repository(r).has_default() == db.has_default(),
{
    lemma_first_match_bounds(db.repositories, with_url(r.url));
}

/// Putting a commit under its hash keeps the hashes apart.
pub proof fn lemma_put_commit_wf(db: DatabaseView, c: crate::model::CommitView)
    requires
        db.rows_wf(),
    ensures
        db.put_commit(c).rows_wf(),
        db.put_commit(c).has_default() == db.has_default(),
{
    lemma_first_match_bounds(db.commits, with_hash(c.hash));
}

/// Putting a contribution under its key keeps keys and numbers apart.
pub proof fn lemma_put_contribution_wf(db: DatabaseView, c: crate::model::ContributionView)
    requires
        db.rows_wf(),
        db.can_put_contribution(c),
    ensures
        db.put_contribution(c).rows_wf(),
        db.put_contribution(c).has_default() == db.has_default(),
{
    lemma_first_match_bounds(db.contributions, with_key(c.repository_url, c.name));
}

/// The rows of a store that holds nothing but a default loadout.
pub(crate) fn placeholder() -> (rows: Snapshot)
    ensures
        rows@.wf(),
{
    let mut loadouts: Vec<Loadout> = Vec::new();
    loadouts.push(
        Loadout {
            id: 1,
            name: String::new(),
            is_default: true,
            prompt_ids: Vec::new(),
            rule_ids: Vec::new(),
        },
    );
    let rows = Snapshot {
        repositories: Vec::new(),
        contributions: Vec::new(),
        commits: Vec::new(),
        agent_rules: Vec::new(),
        prompts: Vec::new(),
        loadouts,
        next_contribution_id: 1,
        next_rule_id: 1,
        next_prompt_id: 1,
        next_loadout_id: 2,
    };
    proof {
        lemma_first_match_is(rows@.loadouts, crate::state::is_default(), 0);
    }
    rows
}

impl Database {
    #[verifier::type_invariant]
    closed spec fn well_formed(self) -> bool {
        self.rows@.wf()
    }

    /// Recalls that a store is a store: its rows keep their keys, and
    /// exactly one loadout is the default one.
    pub(crate) fn recall_store(&self)
        ensures
            self@.wf(),
    {
        proof {
            use_type_invariant(self);
        }
    }

    /// Takes the rows out of the store, which holds a placeholder until
    /// rows are put back.
    fn take(&mut self) -> (rows: Snapshot)
        ensures
            rows@ == old(self)@,
            rows@.wf(),
    {
        proof {
            use_type_invariant(&*self);
        }
        let mut other = Database { rows: placeholder() };
        core::mem::swap(self, &mut other);
        other.rows
    }

    /// Stores `repo` under its URL: in the place of the repository that
    /// has the URL, or as a new row.
    pub fn add_repository(&mut self, repo: &Repository)
        ensures
            final(self)@ == old(self)@.put_repository(repo@),
            final(self)@.wf(),
    {
        let mut rows = self.take();
        proof {
            lemma_put_repository_wf(rows@, repo@);
        }
        let i = find_repository(&rows.repositories, repo.url.as_str());
        let row = repo.clone();
        if i < rows.repositories.len() {
            proof {
                lemma_views_update(rows.repositories@, i as int, row);
            }
            rows.repositories.set(i, row);
        } else {
            proof {
                lemma_views_push(rows.repositories@, row);
            }
            rows.repositories.push(row);
        }
        *self = Database { rows };
    }

    /// Every repository, by name.
    pub fn get_all_repositories(&self) -> (r: Vec<Repository>)
        ensures
            views(r@) == listed::<Repository>(self@.repositories, every()),
            is_listing::<Repository>(views(r@), self@.repositories, every()),
            self@.wf(),
    {
        proof {
            use_type_invariant(self);
        }
        let rows = &self.rows.repositories;
        let mut mask: Vec<bool> = Vec::new();
        let mut i: usize = 0;
        while i < rows.len()
            invariant
                i <= rows@.len(),
                mask@.len() == i,
                forall|j: int| 0 <= j < i ==> mask@[j],
            decreases rows@.len() - i,
        {
            mask.push(true);
            i += 1;
        }
        proof {
            let all = views(rows@);
            assert forall|a: int, b: int|
                0 <= a < all.len() && 0 <= b < all.len() && a != b implies Repository::before(
                all[a],
                all[b],
            ) || Repository::before(all[b], all[a]) by {
                lemma_lex_total(all[a].name, all[b].name);
                lemma_lex_total(all[a].url, all[b].url);
                if a < b {
                    assert(all[a].url != all[b].url);
                } else {
                    assert(all[b].url != all[a].url);
                }
            }
        }
        listing(rows, &mask, Ghost(every()))
    }

    /// Stores `contribution` under its repository's URL and its name: in the
    /// place of the contribution that has this key, which keeps its number,
    /// or as a new row with the next new number. The number that `contribution`
    /// carries is not used. Returns the number of the stored row.
    pub fn add_contribution(&mut self, contribution: &Contribution) -> (r: Result<i64, Error>)
        ensures
            r is Ok <==> old(self)@.can_put_contribution(contribution@),
            r is Ok ==> final(self)@ == old(self)@.put_contribution(contribution@) && r->Ok_0 == old(self)@.contribution_id(contribution@),
            r is Err ==> final(self)@ == old(self)@ && r->Err_0@ == ErrorView::IdsExhausted,
            final(self)@.wf(),
    {
        let mut rows = self.take();
        let ghost before = rows@;
        let i = find_contribution(
            &rows.contributions,
            contribution.repository_url.as_str(),
            contribution.name.as_str(),
        );
        let mut row = contribution.clone();
        if i < rows.contributions.len() {
            let id = rows.contributions[i].id;
            row.id = id;
            proof {
                lemma_put_contribution_wf(before, contribution@);
                lemma_views_update(rows.contributions@, i as int, row);
                assert(views(rows.contributions@)[i as int].id == id);
                assert(row@ == crate::model::ContributionView {
                    id: Some(before.contribution_id(contribution@)),
                    ..contribution@
                });
            }
            rows.contributions.set(i, row);
            *self = Database { rows };
            Ok(id.unwrap())
        } else if rows.next_contribution_id == i64::MAX {
            *self = Database { rows };
            Err(Error::IdsExhausted)
        } else {
            let id = rows.next_contribution_id;
            row.id = Some(id);
            proof {
                lemma_put_contribution_wf(before, contribution@);
                lemma_views_push(rows.contributions@, row);
                assert(row@ == crate::model::ContributionView { id: Some(id), ..contribution@ });
            }
            rows.next_contribution_id = id + 1;
            rows.contributions.push(row);
            *self = Database { rows };
            Ok(id)
        }
    }

    /// Stores `commit` under its hash: in the place of the commit that has
    /// the hash, or as a new row.
    pub fn add_commit(&mut self, commit: &Commit)
        ensures
            final(self)@ == old(self)@.put_commit(commit@),
            final(self)@.wf(),
    {
        let mut rows = self.take();
        proof {
            lemma_put_commit_wf(rows@, commit@);
        }
        let i = find_commit(&rows.commits, commit.hash.as_str());
        let row = commit.clone();
        if i < rows.commits.len() {
            proof {
                lemma_views_update(rows.commits@, i as int, row);
            }
            rows.commits.set(i, row);
        } else {
            proof {
                lemma_views_push(rows.commits@, row);
            }
            rows.commits.push(row);
        }
        *self = Database { rows };
    }

    /// The contributions of the repository `repo_url`, by priority, the
    /// highest first, and by name among those of one priority.
    pub fn get_contributions(&self, repo_url: &str) -> (r: Vec<Contribution>)
        ensures
            views(r@) == listed::<Contribution>(self@.contributions, of_repository(repo_url@)),
            is_listing::<Contribution>(
                views(r@),
                self@.contributions,
                of_repository(repo_url@),
            ),
            self@.wf(),
    {
        proof {
            use_type_invariant(self);
        }
        let rows = &self.rows.contributions;
        let mut mask: Vec<bool> = Vec::new();
        let mut i: usize = 0;
        while i < rows.len()
            invariant
                i <= rows@.len(),
                mask@.len() == i,
                forall|j: int| 0 <= j < i ==> mask@[j] == (rows@[j].repository_url@ == repo_url@),
            decreases rows@.len() - i,
        {
            mask.push(rows[i].repository_url.as_str().eq(repo_url));
            i += 1;
        }
        proof {
            let all = views(rows@);
            let keep = of_repository(repo_url@);
            assert forall|a: int, b: int|
                0 <= a < all.len() && 0 <= b < all.len() && a != b && keep(all[a]) && keep(
                    all[b],
                ) implies Contribution::before(all[a], all[b]) || Contribution::before(
                all[b],
                all[a],
            ) by {
                lemma_lex_total(all[a].name, all[b].name);
                if a < b {
                    assert(!(all[a].repository_url == all[b].repository_url && all[a].name
                        == all[b].name));
                } else {
                    assert(!(all[b].repository_url == all[a].repository_url && all[b].name
                        == all[a].name));
                }
            }
            assert forall|j: int| 0 <= j < rows@.len() implies mask@[j] == keep(
                #[trigger] all[j],
            ) by {
                assert(all[j].repository_url == rows@[j].repository_url@);
            }
        }
        listing(rows, &mask, Ghost(of_repository(repo_url@)))
    }

    /// The contribution named `name` of the repository `repo_url`, where
    /// there is one.
    pub fn get_contribution(&self, repo_url: &str, name: &str) -> (r: Option<Contribution>)
        ensures
            r is Some <==> self@.has_contribution(repo_url@, name@),
            r is Some ==> r->0@ == self@.contributions[self@.contribution_at(repo_url@, name@)],
            self@.wf(),
    {
        proof {
            use_type_invariant(self);
        }
        let i = find_contribution(&self.rows.contributions, repo_url, name);
        if i < self.rows.contributions.len() {
            Some(self.rows.contributions[i].clone())
        } else {
            None
        }
    }

    /// The number of the contribution named `name` of the repository
    /// `repo_url`, where there is one.
    pub fn get_contribution_id(&self, repo_url: &str, name: &str) -> (r: Option<i64>)
        ensures
            r is Some <==> self@.has_contribution(repo_url@, name@),
            r is Some ==> Some(r->0) == self@.contributions[self@.contribution_at(
                repo_url@,
                name@,
            )].id,
            self@.wf(),
    {
        proof {
            use_type_invariant(self);
        }
        let i = find_contribution(&self.rows.contributions, repo_url, name);
        if i < self.rows.contributions.len() {
            assert(views(self.rows.contributions@)[i as int].id is Some);
            self.rows.contributions[i].id
        } else {
            None
        }
    }

    /// The commits that belong to the contribution named `name` of
    /// the repository `repo_url`, the latest first; none where there is no
    /// such contribution.
    pub fn get_commits_for_contribution(&self, repo_url: &str, name: &str) -> (r: Vec<
        Commit,
    >)
        ensures
            views(r@) == self@.commits_of(repo_url@, name@),
            !self@.has_contribution(repo_url@, name@) ==> r@.len() == 0,
            self@.has_contribution(repo_url@, name@) ==> is_listing::<Commit>(
                views(r@),
                self@.commits,
                of_contribution(
                    self@.contributions[self@.contribution_at(repo_url@, name@)].id->0,
                ),
            ),
            self@.wf(),
    {
        proof {
            use_type_invariant(self);
        }
        let found = self.get_contribution_id(repo_url, name);
        let id = match found {
            Some(id) => id,
            None => {
                let none: Vec<Commit> = Vec::new();
                assert(views(none@) =~= Seq::<crate::model::CommitView>::empty());
                return none;
            },
        };
        let rows = &self.rows.commits;
        let mut mask: Vec<bool> = Vec::new();
        let mut i: usize = 0;
        while i < rows.len()
            invariant
                i <= rows@.len(),
                mask@.len() == i,
                forall|j: int| 0 <= j < i ==> mask@[j] == (rows@[j].contribution_id == Some(id)),
            decreases rows@.len() - i,
        {
            let hit = match rows[i].contribution_id {
                Some(other) => other == id,
                None => false,
            };
            mask.push(hit);
            i += 1;
        }
        proof {
            let all = views(rows@);
            let keep = of_contribution(id);
            assert forall|a: int, b: int|
                0 <= a < all.len() && 0 <= b < all.len() && a != b implies Commit::before(
                all[a],
                all[b],
            ) || Commit::before(all[b], all[a]) by {
                lemma_lex_total(all[a].date, all[b].date);
                lemma_lex_total(all[a].hash, all[b].hash);
                if a < b {
                    assert(all[a].hash != all[b].hash);
                } else {
                    assert(all[b].hash != all[a].hash);
                }
            }
            assert forall|j: int| 0 <= j < rows@.len() implies mask@[j] == keep(
                #[trigger] all[j],
            ) by {
                assert(all[j].contribution_id == rows@[j].contribution_id);
            }
        }
        listing(rows, &mask, Ghost(of_contribution(id)))
    }

    /// How many rows each table holds.
    pub fn get_statistics(&self) -> (r: Statistics)
        ensures
            r.repositories == self@.repositories.len(),
            r.contributions == self@.contributions.len(),
            r.commits == self@.commits.len(),
            r.agent_rules == self@.agent_rules.len(),
            r.prompts == self@.prompts.len(),
    {
        Statistics {
            repositories: self.rows.repositories.len(),
            contributions: self.rows.contributions.len(),
            commits: self.rows.commits.len(),
            agent_rules: self.rows.agent_rules.len(),
            prompts: self.rows.prompts.len(),
        }
    }
}

} // verus!
