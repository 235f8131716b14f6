//! The store and the configuration: what the store says of
//! organizations and repositories, and what a configuration adds to it.

use vstd::prelude::*;
use crate::config::{
    Config, Organization, OrganizationView, RepositoryConfig, RepositoryConfigView,
};
use crate::database::Database;
use crate::model::{clone_opt, views, Repository, RepositoryView};
use crate::order::{listed, Record};
use crate::state::{every, lemma_first_match_bounds, DatabaseView};
use crate::state::{first_match, lemma_first_match_is};
use crate::table::{has_key, keyed, with_entry};
use crate::text::opt_text;

verus! {

/// The organizations that `repos` name, each once, in the order in which
/// they are first named, with the description of the repository that
/// names it first.
pub open spec fn organizations_of(repos: Seq<RepositoryView>) -> Seq<
    (Seq<char>, Option<Seq<char>>),
>
    decreases repos.len(),
{
    if repos.len() == 0 {
        Seq::empty()
    } else {
        let head = organizations_of(repos.drop_last());
        let last = repos.last();
        if has_key(head, last.organization) {
            head
        } else {
            head.push((last.organization, last.description))
        }
    }
}

/// Names with optional descriptions, as texts.
pub open spec fn described(rows: Seq<(String, Option<String>)>) -> Seq<
    (Seq<char>, Option<Seq<char>>),
> {
    Seq::new(rows.len(), |i: int| (rows[i].0@, opt_text(rows[i].1)))
}

/// The entries of a table of organizations, as texts.
pub open spec fn organization_entries(rows: Seq<(Seq<char>, Organization)>) -> Seq<
    (Seq<char>, OrganizationView),
> {
    Seq::new(rows.len(), |i: int| (rows[i].0, rows[i].1@))
}

/// The entries of a table of repositories, as texts.
pub open spec fn repository_entries(rows: Seq<(Seq<char>, RepositoryConfig)>) -> Seq<
    (Seq<char>, RepositoryConfigView),
> {
    Seq::new(rows.len(), |i: int| (rows[i].0, rows[i].1@))
}

/// The configuration entries of the organizations `orgs`: each under its
/// name.
pub open spec fn organizations_config(orgs: Seq<(Seq<char>, Option<Seq<char>>)>) -> Seq<
    (Seq<char>, OrganizationView),
> {
    Seq::new(
        orgs.len(),
        |i: int| (orgs[i].0, OrganizationView { name: orgs[i].0, description: orgs[i].1 }),
    )
}

/// The configuration entries of the repositories `repos`: each under its
/// URL.
pub open spec fn repositories_config(repos: Seq<RepositoryView>) -> Seq<
    (Seq<char>, RepositoryConfigView),
> {
    Seq::new(
        repos.len(),
        |i: int|
            (
                repos[i].url,
                RepositoryConfigView {
                    organization: repos[i].organization,
                    name: repos[i].name,
                    description: repos[i].description,
                },
            ),
    )
}

/// The repository that the configuration describes under `entry`'s key.
pub open spec fn repository_of(entry: (Seq<char>, RepositoryConfigView)) -> RepositoryView {
    RepositoryView {
        url: entry.0,
        organization: entry.1.organization,
        name: entry.1.name,
        description: entry.1.description,
    }
}

/// The store after each repository of `entries` was put into it, in order.
pub open spec fn put_repositories(
    db: DatabaseView,
    entries: Seq<(Seq<char>, RepositoryConfigView)>,
) -> DatabaseView
    decreases entries.len(),
{
    if entries.len() == 0 {
        db
    } else {
        put_repositories(db, entries.drop_last()).put_repository(repository_of(entries.last()))
    }
}

/// The place of a key among entries is its place among their texts.
pub proof fn lemma_repository_entry_put(
    rows: Seq<(Seq<char>, RepositoryConfig)>,
    key: Seq<char>,
    value: RepositoryConfig,
)
    ensures
        repository_entries(with_entry(rows, key, value)) == with_entry(
            repository_entries(rows),
            key,
            value@,
        ),
{
    let seen = repository_entries(rows);
    crate::state::lemma_first_match_bounds(rows, keyed::<RepositoryConfig>(key));
    let i = first_match(rows, keyed::<RepositoryConfig>(key));
    assert forall|j: int| 0 <= j < i implies !keyed::<RepositoryConfigView>(key)(
        #[trigger] seen[j],
    ) by {
        assert(!keyed::<RepositoryConfig>(key)(rows[j]));
    }
    if i < rows.len() {
        assert(keyed::<RepositoryConfig>(key)(rows[i]));
        assert(keyed::<RepositoryConfigView>(key)(seen[i]));
    }
    lemma_first_match_is(seen, keyed::<RepositoryConfigView>(key), i);
    assert(repository_entries(with_entry(rows, key, value)) =~= with_entry(seen, key, value@));
}

/// The place of a key among entries is its place among their texts.
pub proof fn lemma_organization_entry_put(
    rows: Seq<(Seq<char>, Organization)>,
    key: Seq<char>,
    value: Organization,
)
    ensures
        organization_entries(with_entry(rows, key, value)) == with_entry(
            organization_entries(rows),
            key,
            value@,
        ),
{
    let seen = organization_entries(rows);
    crate::state::lemma_first_match_bounds(rows, keyed::<Organization>(key));
    let i = first_match(rows, keyed::<Organization>(key));
    assert forall|j: int| 0 <= j < i implies !keyed::<OrganizationView>(key)(#[trigger] seen[j]) by {
        assert(!keyed::<Organization>(key)(rows[j]));
    }
    if i < rows.len() {
        assert(keyed::<Organization>(key)(rows[i]));
        assert(keyed::<OrganizationView>(key)(seen[i]));
    }
    lemma_first_match_is(seen, keyed::<OrganizationView>(key), i);
    assert(organization_entries(with_entry(rows, key, value)) =~= with_entry(seen, key, value@));
}

/// Whether a name is among `rows`.
fn names(rows: &Vec<(String, Option<String>)>, name: &str) -> (r: bool)
    ensures
        r == has_key(described(rows@), name@),
{
    let mut i: usize = 0;
    while i < rows.len()
        invariant
            i <= rows@.len(),
            forall|j: int| 0 <= j < i ==> (#[trigger] described(rows@)[j]).0 != name@,
        decreases rows@.len() - i,
    {
        if rows[i].0.as_str().eq(name) {
            assert(described(rows@)[i as int].0 == name@);
            return true;
        }
        i += 1;
    }
    false
}

/// The organizations that `repos` name, each once, in the order in which
/// they are first named, with the description of the repository that
/// names it first.
pub fn organizations_in(repos: &Vec<Repository>) -> (r: Vec<(String, Option<String>)>)
    ensures
        described(r@) == organizations_of(views(repos@)),
{
    let ghost all = views(repos@);
    let mut out: Vec<(String, Option<String>)> = Vec::new();
    let mut i: usize = 0;
    assert(described(out@) =~= organizations_of(all.take(0)));
    while i < repos.len()
        invariant
            i <= repos@.len(),
            all == views(repos@),
            described(out@) == organizations_of(all.take(i as int)),
        decreases repos@.len() - i,
    {
        proof {
            assert(all.take(i + 1).drop_last() =~= all.take(i as int));
            assert(all.take(i + 1).last() == repos@[i as int]@);
        }
        let repo = &repos[i];
        if !names(&out, repo.organization.as_str()) {
            let ghost before = described(out@);
            out.push((repo.organization.clone(), clone_opt(&repo.description)));
            assert(described(out@) =~= before.push((repo@.organization, repo@.description)));
        }
        i += 1;
    }
    assert(all.take(repos@.len() as int) =~= all);
    out
}

/// The organizations of `repos` name no organization twice.
pub proof fn lemma_organizations_distinct(repos: Seq<RepositoryView>)
    ensures
        crate::table::distinct_keys(organizations_of(repos)),
    decreases repos.len(),
{
    if repos.len() > 0 {
        lemma_organizations_distinct(repos.drop_last());
    }
}

impl Database {
    /// The organizations that the repositories name, each once, with the
    /// description of the first repository, by name, that names it.
    pub fn get_all_organizations(&self) -> (r: Vec<(String, Option<String>)>)
        ensures
            described(r@) == organizations_of(listed::<Repository>(self@.repositories, every())),
            self@.wf(),
    {
        let repos = self.get_all_repositories();
        organizations_in(&repos)
    }

    /// The configuration that says what the store says: its organizations,
    /// each under its name, and its repositories, each under its URL.
    pub fn load_config_from_db(&self) -> (r: Config)
        ensures
            organization_entries(r.organizations.rows()) == organizations_config(
                organizations_of(listed::<Repository>(self@.repositories, every())),
            ),
            repository_entries(r.repositories.rows()) == repositories_config(
                listed::<Repository>(self@.repositories, every()),
            ),
            self@.wf(),
    {
        let repos = self.get_all_repositories();
        let ghost all = views(repos@);
        let orgs = organizations_in(&repos);
        let ghost named = described(orgs@);
        proof {
            lemma_organizations_distinct(all);
        }
        let mut config = Config::new();
        let mut i: usize = 0;
        assert(organization_entries(config.organizations.rows()) =~= organizations_config(
            named,
        ).take(0));
        while i < orgs.len()
            invariant
                i <= orgs@.len(),
                named == described(orgs@),
                crate::table::distinct_keys(named),
                config.repositories.rows().len() == 0,
                organization_entries(config.organizations.rows()) == organizations_config(
                    named,
                ).take(i as int),
            decreases orgs@.len() - i,
        {
            let ghost before = config.organizations.rows();
            let name = orgs[i].0.clone();
            let description = clone_opt(&orgs[i].1);
            let org = Organization { name: name.clone(), description };
            proof {
                assert(named[i as int] == (orgs@[i as int].0@, opt_text(orgs@[i as int].1)));
                assert(before.len() == organization_entries(before).len());
                assert(organizations_config(named).len() == named.len());
                assert(named.len() == orgs@.len());
                assert(before.len() == i);
                assert forall|j: int| 0 <= j < before.len() implies (#[trigger] before[j]).0
                    != name@ by {
                    assert(organization_entries(before)[j].0 == before[j].0);
                    assert(organizations_config(named).take(i as int)[j].0 == named[j].0);
                }
            }
            proof {
                crate::table::lemma_with_new_entry(before, name@, org);
            }
            config.organizations.insert(name, org);
            proof {
                assert(config.organizations.rows() == before.push((name@, org)));
                assert(organization_entries(config.organizations.rows())
                    =~= organizations_config(named).take(i + 1));
            }
            i += 1;
        }
        assert(organizations_config(named).take(orgs@.len() as int) =~= organizations_config(
            named,
        ));
        let mut k: usize = 0;
        assert(repository_entries(config.repositories.rows()) =~= repositories_config(all).take(
            0,
        ));
        proof {
            use_type_invariant(self);
            assert forall|a: int, b: int| 0 <= a < b < all.len() implies (#[trigger] all[a]).url
                != (#[trigger] all[b]).url by {
                Repository::lemma_asymmetric(all[a], all[b]);
                assert(all[a] != all[b]);
                assert(self@.repositories.contains(all[a]));
                assert(self@.repositories.contains(all[b]));
                let x = choose|x: int|
                    0 <= x < self@.repositories.len() && self@.repositories[x] == all[a];
                let y = choose|y: int|
                    0 <= y < self@.repositories.len() && self@.repositories[y] == all[b];
                assert(x != y);
                if x < y {
                    assert(self@.repositories[x].url != self@.repositories[y].url);
                } else {
                    assert(self@.repositories[y].url != self@.repositories[x].url);
                }
            }
        }
        while k < repos.len()
            invariant
                k <= repos@.len(),
                all == views(repos@),
                forall|a: int, b: int|
                    0 <= a < b < all.len() ==> (#[trigger] all[a]).url != (#[trigger] all[b]).url,
                organization_entries(config.organizations.rows()) == organizations_config(named),
                repository_entries(config.repositories.rows()) == repositories_config(all).take(
                    k as int,
                ),
            decreases repos@.len() - k,
        {
            let ghost before = config.repositories.rows();
            let repo = &repos[k];
            let url = repo.url.clone();
            let entry = RepositoryConfig {
                organization: repo.organization.clone(),
                name: repo.name.clone(),
                description: clone_opt(&repo.description),
            };
            proof {
                assert(all[k as int] == repo@);
                assert(before.len() == repository_entries(before).len());
                assert(repositories_config(all).len() == all.len());
                assert(before.len() == k);
                assert forall|j: int| 0 <= j < before.len() implies (#[trigger] before[j]).0
                    != url@ by {
                    assert(repository_entries(before)[j].0 == before[j].0);
                    assert(repositories_config(all).take(k as int)[j].0 == all[j].url);
                }
            }
            proof {
                crate::table::lemma_with_new_entry(before, url@, entry);
            }
            config.repositories.insert(url, entry);
            proof {
                assert(config.repositories.rows() == before.push((url@, entry)));
                assert(repository_entries(config.repositories.rows()) =~= repositories_config(
                    all,
                ).take(k + 1));
            }
            k += 1;
        }
        assert(repositories_config(all).take(repos@.len() as int) =~= repositories_config(all));
        config
    }

    /// Puts every repository of `config` into the store, in the order of
    /// the configuration. The organizations of a configuration are not
    /// stored by themselves: the store knows an organization by the
    /// repositories that name it.
    pub fn load_config_to_db(&mut self, config: &Config)
        ensures
            final(self)@ == put_repositories(
                old(self)@,
                repository_entries(config.repositories.rows()),
            ),
            final(self)@.wf(),
    {
        let ghost entries = repository_entries(config.repositories.rows());
        let n = config.repositories.len();
        let mut i: usize = 0;
        proof {
            use_type_invariant(&*self);
            assert(entries.take(0) =~= Seq::<(Seq<char>, RepositoryConfigView)>::empty());
        }
        while i < n
            invariant
                i <= n,
                n == entries.len(),
                entries == repository_entries(config.repositories.rows()),
                self@ == put_repositories(old(self)@, entries.take(i as int)),
                self@.wf(),
            decreases n - i,
        {
            let key = config.repositories.key_at(i);
            let value = config.repositories.value_at(i);
            match (key, value) {
                (Some(url), Some(entry)) => {
                    let repo = Repository {
                        url: url.clone(),
                        organization: entry.organization.clone(),
                        name: entry.name.clone(),
                        description: clone_opt(&entry.description),
                    };
                    proof {
                        assert(entries.take(i + 1).drop_last() =~= entries.take(i as int));
                        assert(repo@ == repository_of(entries.take(i + 1).last()));
                    }
                    self.add_repository(&repo);
                },
                _ => {
                    assert(false);
                },
            }
            i += 1;
        }
        assert(entries.take(n as int) =~= entries);
    }
}

} // verus!
