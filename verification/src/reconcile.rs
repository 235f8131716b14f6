//! Reconciliation: which contribution a commit belongs to. A
//! contribution claims a commit when one of the commit identifiers that
//! it lists, key or related, is a prefix of the commit's hash. Of the
//! contributions that claim a commit, the first in the listing of its
//! repository has it.

use vstd::prelude::*;
use crate::database::Database;
use crate::model::{views, Commit, CommitView, Contribution, ContributionView, Repository};
use crate::order::listed;
use crate::state::{
    every, first_match, lemma_first_match_bounds, lemma_first_match_found, lemma_first_match_is,
    of_repository, with_url, DatabaseView,
};
use crate::text::{starts_with, texts};

verus! {

/// Whether one of `ids` is a prefix of `hash`.
pub open spec fn lists_prefix(ids: Seq<Seq<char>>, hash: Seq<char>) -> bool {
    exists|i: int| 0 <= i < ids.len() && (#[trigger] ids[i]).is_prefix_of(hash)
}

/// Whether `c` claims the commit with the hash `hash`.
pub open spec fn claims(c: ContributionView, hash: Seq<char>) -> bool {
    lists_prefix(c.key_commits, hash) || lists_prefix(c.related_commits, hash)
}

/// Selects the contributions that claim the commit with the hash `hash`.
pub open spec fn claiming(hash: Seq<char>) -> spec_fn(ContributionView) -> bool {
    |c: ContributionView| claims(c, hash)
}

/// Whether the store knows the repository `url`.
pub open spec fn knows_repository(db: DatabaseView, url: Seq<char>) -> bool {
    first_match(db.repositories, with_url(url)) < db.repositories.len()
}

/// The contributions that can claim a commit of the repository `url`:
/// those of the repository, in the order of its listing, where the store
/// knows the repository; none where it does not.
pub open spec fn candidates(db: DatabaseView, url: Seq<char>) -> Seq<ContributionView> {
    if knows_repository(db, url) {
        listed::<Contribution>(db.contributions, of_repository(url))
    } else {
        Seq::empty()
    }
}

/// The number of the contribution that the commit `hash` of the
/// repository `url` belongs to: the first candidate that claims it.
pub open spec fn assigned(db: DatabaseView, url: Seq<char>, hash: Seq<char>) -> Option<i64> {
    let among = candidates(db, url);
    let i = first_match(among, claiming(hash));
    if i < among.len() {
        among[i].id
    } else {
        None
    }
}

/// `commit` as it is recorded in `db`: with the contribution that it
/// belongs to there.
pub open spec fn reconciled(db: DatabaseView, commit: CommitView) -> CommitView {
    CommitView { contribution_id: assigned(db, commit.repository_url, commit.hash), ..commit }
}

/// The store after `commits` were recorded in it, one after the other.
pub open spec fn recorded(db: DatabaseView, commits: Seq<CommitView>) -> DatabaseView
    decreases commits.len(),
{
    if commits.len() == 0 {
        db
    } else {
        let before = recorded(db, commits.drop_last());
        before.put_commit(reconciled(before, commits.last()))
    }
}

/// Whether one of `ids` is a prefix of `hash`.
pub fn lists_prefix_of(ids: &Vec<String>, hash: &str) -> (r: bool)
    ensures
        r == lists_prefix(texts(ids@), hash@),
{
    let mut i: usize = 0;
    while i < ids.len()
        invariant
            i <= ids@.len(),
            forall|j: int| 0 <= j < i ==> !(#[trigger] texts(ids@)[j]).is_prefix_of(hash@),
        decreases ids@.len() - i,
    {
        if starts_with(hash, ids[i].as_str()) {
            assert(texts(ids@)[i as int].is_prefix_of(hash@));
            return true;
        }
        i += 1;
    }
    false
}

/// Whether `contribution` claims the commit with the hash `hash`.
pub fn claims_commit(contribution: &Contribution, hash: &str) -> (r: bool)
    ensures
        r == claims(contribution@, hash@),
{
    lists_prefix_of(&contribution.key_commits, hash) || lists_prefix_of(
        &contribution.related_commits,
        hash,
    )
}

/// Whether one of `repos` has the URL `url`.
fn lists_repository(repos: &Vec<Repository>, url: &str) -> (r: bool)
    ensures
        r == exists|i: int| 0 <= i < repos@.len() && (#[trigger] views(repos@)[i]).url == url@,
{
    let mut i: usize = 0;
    while i < repos.len()
        invariant
            i <= repos@.len(),
            forall|j: int| 0 <= j < i ==> (#[trigger] views(repos@)[j]).url != url@,
        decreases repos@.len() - i,
    {
        if repos[i].url.as_str().eq(url) {
            assert(views(repos@)[i as int].url == url@);
            return true;
        }
        i += 1;
    }
    false
}

/// The number of the contribution that the commit `hash` of the
/// repository `url` belongs to, where a contribution claims it. A commit
/// of a repository that the store does not know belongs to none.
pub fn assign(db: &Database, url: &str, hash: &str) -> (r: Option<i64>)
    ensures
        r == assigned(db@, url@, hash@),
        db@.wf(),
{
    let repos = db.get_all_repositories();
    let known = lists_repository(&repos, url);
    proof {
        let rows = db@.repositories;
        let all = views(repos@);
        lemma_first_match_bounds(rows, with_url(url@));
        if known {
            let i = choose|i: int| 0 <= i < all.len() && (#[trigger] all[i]).url == url@;
            assert(rows.contains(all[i]));
            let k = choose|k: int| 0 <= k < rows.len() && rows[k] == all[i];
            lemma_first_match_found(rows, with_url(url@), k);
        } else {
            if knows_repository(db@, url@) {
                let k = first_match(rows, with_url(url@));
                assert(every::<crate::model::RepositoryView>()(rows[k]));
                assert(all.contains(rows[k]));
                let i = choose|i: int| 0 <= i < all.len() && all[i] == rows[k];
                assert(all[i].url == url@);
            }
        }
        assert(known == knows_repository(db@, url@));
    }
    if !known {
        return None;
    }
    let among = db.get_contributions(url);
    let mut i: usize = 0;
    while i < among.len()
        invariant
            i <= among@.len(),
            db@.wf(),
            knows_repository(db@, url@),
            views(among@) == listed::<Contribution>(db@.contributions, of_repository(url@)),
            forall|j: int| 0 <= j < i ==> !claims(#[trigger] views(among@)[j], hash@),
        decreases among@.len() - i,
    {
        if claims_commit(&among[i], hash) {
            proof {
                let all = views(among@);
                assert forall|j: int| 0 <= j < i implies !claiming(hash@)(#[trigger] all[j]) by {}
                assert(claiming(hash@)(all[i as int]));
                lemma_first_match_is(all, claiming(hash@), i as int);
                assert(all[i as int].id == among@[i as int].id);
            }
            return among[i].id;
        }
        i += 1;
    }
    proof {
        let all = views(among@);
        assert forall|j: int| 0 <= j < all.len() implies !claiming(hash@)(#[trigger] all[j]) by {}
        lemma_first_match_is(all, claiming(hash@), all.len() as int);
    }
    None
}

/// Records `commit` in `db` with the contribution that it belongs to
/// there, in place of whatever the store held under its hash: a commit
/// that belonged to a contribution and is claimed by none now belongs to
/// none.
pub fn record_commit(db: &mut Database, commit: &Commit)
    ensures
        final(db)@ == old(db)@.put_commit(reconciled(old(db)@, commit@)),
        final(db)@.wf(),
{
    let id = assign(db, commit.repository_url.as_str(), commit.hash.as_str());
    let mut row = commit.clone();
    row.contribution_id = id;
    db.add_commit(&row);
}

} // verus!
