//! What holds of the store whatever it holds: the laws of its
//! operations, each proved from the rules of `state`.

use vstd::prelude::*;
use crate::model::{Contribution, ContributionView, PromptView, RepositoryView};
use crate::order::{comparable_where, is_listing, lemma_listing_exists, listed, Record};
use crate::reconcile::{assigned, candidates, claiming, claims, knows_repository};
use crate::state::{
    first_match, lemma_first_match_bounds, lemma_first_match_found, lemma_first_match_is,
    loadout_named, of_repository, prompt_among, prompt_ids, prompt_named, rule_among, rule_ids,
    with_hash, with_key, with_url, DatabaseView,
};
use crate::text::lemma_lex_total;

verus! {

/// Storing a repository twice under one URL leaves exactly one
/// repository with that URL, and it is the second one; the store is as if
/// only the second had been stored.
pub proof fn law_repository_stored_twice(
    db: DatabaseView,
    first: RepositoryView,
    second: RepositoryView,
)
    requires
        db.wf(),
        first.url == second.url,
    ensures
        db.put_repository(first).put_repository(second).wf(),
        db.put_repository(first).put_repository(second) == db.put_repository(second),
        exists|i: int|
            0 <= i < db.put_repository(first).put_repository(second).repositories.len()
                && #[trigger] db.put_repository(first).put_repository(second).repositories[i]
                == second,
        forall|i: int, j: int|
            #![trigger db.put_repository(first).put_repository(second).repositories[i],
                db.put_repository(first).put_repository(second).repositories[j]]
            0 <= i < db.put_repository(first).put_repository(second).repositories.len() && 0 <= j
                < db.put_repository(first).put_repository(second).repositories.len()
                && db.put_repository(first).put_repository(second).repositories[i].url
                == second.url && db.put_repository(first).put_repository(
                second,
            ).repositories[j].url == second.url ==> i == j,
{
    let hit = with_url(second.url);
    let once = db.put_repository(first);
    let twice = once.put_repository(second);
    lemma_first_match_bounds(db.repositories, hit);
    let i = first_match(db.repositories, hit);
    assert(hit(once.repositories[i]));
    assert forall|j: int| 0 <= j < i implies !hit(#[trigger] once.repositories[j]) by {
        assert(once.repositories[j] == db.repositories[j]);
    }
    lemma_first_match_is(once.repositories, hit, i);
    assert(twice.repositories =~= db.put_repository(second).repositories);
    assert(twice.repositories[i] == second);
    crate::database::lemma_put_repository_wf(db, second);
}

/// Storing the same contribution twice is storing it once.
pub proof fn law_contribution_stored_again(db: DatabaseView, c: ContributionView)
    requires
        db.wf(),
        db.can_put_contribution(c),
    ensures
        db.put_contribution(c).can_put_contribution(c),
        db.put_contribution(c).put_contribution(c) == db.put_contribution(c),
        db.put_contribution(c).contribution_id(c) == db.contribution_id(c),
{
    law_contribution_replaced(db, c, c);
    let hit = with_key(c.repository_url, c.name);
    let once = db.put_contribution(c);
    lemma_first_match_bounds(db.contributions, hit);
    let i = first_match(db.contributions, hit);
    assert(hit(once.contributions[i]));
    assert forall|j: int| 0 <= j < i implies !hit(#[trigger] once.contributions[j]) by {
        assert(once.contributions[j] == db.contributions[j]);
    }
    lemma_first_match_is(once.contributions, hit, i);
    assert(once.put_contribution(c).contributions =~= once.contributions);
}

/// Storing a contribution under the key of one that is stored replaces
/// it wholly: what is stored under the key is the second contribution,
/// with every field of it, under the number that the first one had.
/// Nothing of the first one stays but its number.
pub proof fn law_contribution_replaced(
    db: DatabaseView,
    first: ContributionView,
    second: ContributionView,
)
    requires
        db.wf(),
        db.can_put_contribution(first),
        first.repository_url == second.repository_url,
        first.name == second.name,
    ensures
        db.put_contribution(first).can_put_contribution(second),
        db.put_contribution(first).put_contribution(second).wf(),
        db.put_contribution(first).put_contribution(second) == db.put_contribution(second),
        db.put_contribution(first).contribution_id(second) == db.contribution_id(first),
        db.put_contribution(first).put_contribution(second).has_contribution(
            second.repository_url,
            second.name,
        ),
        db.put_contribution(first).put_contribution(second).contributions[db.put_contribution(
            first,
        ).put_contribution(second).contribution_at(second.repository_url, second.name)]
            == (ContributionView { id: Some(db.contribution_id(first)), ..second }),
{
    let hit = with_key(second.repository_url, second.name);
    let once = db.put_contribution(first);
    let twice = once.put_contribution(second);
    lemma_first_match_bounds(db.contributions, hit);
    let i = first_match(db.contributions, hit);
    assert(hit(once.contributions[i]));
    assert forall|j: int| 0 <= j < i implies !hit(#[trigger] once.contributions[j]) by {
        assert(once.contributions[j] == db.contributions[j]);
    }
    lemma_first_match_is(once.contributions, hit, i);
    assert(twice.contributions =~= db.put_contribution(second).contributions);
    assert(hit(twice.contributions[i]));
    assert forall|j: int| 0 <= j < i implies !hit(#[trigger] twice.contributions[j]) by {
        assert(twice.contributions[j] == db.contributions[j]);
    }
    lemma_first_match_is(twice.contributions, hit, i);
    crate::database::lemma_put_contribution_wf(db, first);
    crate::database::lemma_put_contribution_wf(once, second);
}

/// In a store, any two contributions of one repository are comparable:
/// one of them is listed before the other.
pub proof fn lemma_contributions_comparable(db: DatabaseView, url: Seq<char>)
    requires
        db.rows_wf(),
    ensures
        comparable_where::<Contribution>(db.contributions, of_repository(url)),
        is_listing::<Contribution>(
            listed::<Contribution>(db.contributions, of_repository(url)),
            db.contributions,
            of_repository(url),
        ),
{
    let rows = db.contributions;
    let keep = of_repository(url);
    assert forall|a: int, b: int|
        0 <= a < rows.len() && 0 <= b < rows.len() && a != b && keep(rows[a]) && keep(
            rows[b],
        ) implies Contribution::before(rows[a], rows[b]) || Contribution::before(
        rows[b],
        rows[a],
    ) by {
        lemma_lex_total(rows[a].name, rows[b].name);
        if a < b {
            assert(!(rows[a].repository_url == rows[b].repository_url && rows[a].name
                == rows[b].name));
        } else {
            assert(!(rows[b].repository_url == rows[a].repository_url && rows[b].name
                == rows[a].name));
        }
    }
    lemma_listing_exists::<Contribution>(rows, keep);
}

/// In the listing of the contributions of a repository, a contribution of
/// a higher priority stands before one of a lower priority, and of two
/// contributions of one priority the one whose name comes first.
pub proof fn law_higher_priority_first(db: DatabaseView, url: Seq<char>, i: int, j: int)
    requires
        db.wf(),
        0 <= i < j < listed::<Contribution>(db.contributions, of_repository(url)).len(),
    ensures
        listed::<Contribution>(db.contributions, of_repository(url))[i].priority >= listed::<
            Contribution,
        >(db.contributions, of_repository(url))[j].priority,
        listed::<Contribution>(db.contributions, of_repository(url))[i].priority == listed::<
            Contribution,
        >(db.contributions, of_repository(url))[j].priority ==> crate::text::lex_lt(
            listed::<Contribution>(db.contributions, of_repository(url))[i].name,
            listed::<Contribution>(db.contributions, of_repository(url))[j].name,
        ),
{
    lemma_contributions_comparable(db, url);
    let rows = listed::<Contribution>(db.contributions, of_repository(url));
    assert(Contribution::before(rows[i], rows[j]));
}

/// A commit belongs to a contribution only where that contribution is
/// one of the commit's repository, which the store knows, and lists a
/// prefix of the commit's hash.
pub proof fn law_assigned_claims(db: DatabaseView, url: Seq<char>, hash: Seq<char>)
    requires
        db.wf(),
        assigned(db, url, hash) is Some,
    ensures
        knows_repository(db, url),
        exists|i: int|
            0 <= i < db.contributions.len() && (#[trigger] db.contributions[i]).id == assigned(
                db,
                url,
                hash,
            ) && db.contributions[i].repository_url == url && claims(db.contributions[i], hash),
{
    lemma_contributions_comparable(db, url);
    let among = candidates(db, url);
    lemma_first_match_bounds(among, claiming(hash));
    let w = first_match(among, claiming(hash));
    assert(db.contributions.contains(among[w]));
    let i = choose|i: int| 0 <= i < db.contributions.len() && db.contributions[i] == among[w];
    assert(db.contributions[i].id == assigned(db, url, hash));
}

/// A commit that no contribution of its repository claims belongs to no
/// contribution, and so does a commit of a repository that the store does
/// not know.
pub proof fn law_unclaimed_commit(db: DatabaseView, url: Seq<char>, hash: Seq<char>)
    requires
        db.wf(),
        !knows_repository(db, url) || forall|i: int|
            0 <= i < db.contributions.len() && (#[trigger] db.contributions[i]).repository_url
                == url ==> !claims(db.contributions[i], hash),
    ensures
        assigned(db, url, hash) is None,
{
    if knows_repository(db, url) {
        lemma_contributions_comparable(db, url);
        let among = candidates(db, url);
        lemma_first_match_bounds(among, claiming(hash));
        let w = first_match(among, claiming(hash));
        if w < among.len() {
            assert(db.contributions.contains(among[w]));
            let i = choose|i: int|
                0 <= i < db.contributions.len() && db.contributions[i] == among[w];
            assert(claims(db.contributions[i], hash));
        }
    }
}

/// Of the contributions of a repository that claim a commit, the one
/// that is listed first has it: the commit belongs to a contribution that
/// claims it, and that contribution is `c` or is listed before `c`,
/// whichever claiming contribution `c` of the repository is.
pub proof fn law_first_claimant_wins(
    db: DatabaseView,
    url: Seq<char>,
    hash: Seq<char>,
    c: ContributionView,
)
    requires
        db.wf(),
        knows_repository(db, url),
        db.contributions.contains(c),
        c.repository_url == url,
        claims(c, hash),
    ensures
        assigned(db, url, hash) is Some,
        exists|i: int|
            0 <= i < db.contributions.len() && (#[trigger] db.contributions[i]).id == assigned(
                db,
                url,
                hash,
            ) && db.contributions[i].repository_url == url && claims(db.contributions[i], hash)
                && (db.contributions[i] == c || Contribution::before(db.contributions[i], c)),
{
    lemma_contributions_comparable(db, url);
    let among = candidates(db, url);
    let k = choose|k: int| 0 <= k < db.contributions.len() && db.contributions[k] == c;
    assert(of_repository(url)(db.contributions[k]));
    assert(among.contains(c));
    let p = choose|p: int| 0 <= p < among.len() && among[p] == c;
    assert(claiming(hash)(among[p]));
    lemma_first_match_found(among, claiming(hash), p);
    lemma_first_match_bounds(among, claiming(hash));
    let w = first_match(among, claiming(hash));
    assert(db.contributions.contains(among[w]));
    let i = choose|i: int| 0 <= i < db.contributions.len() && db.contributions[i] == among[w];
    assert(db.contributions[i].id is Some);
    if w < p {
        assert(Contribution::before(among[w], among[p]));
    }
    assert(db.contributions[i].id == assigned(db, url, hash));
}

/// Recording a commit does not change which contribution any commit
/// belongs to.
pub proof fn law_recording_keeps_assignments(
    db: DatabaseView,
    commit: crate::model::CommitView,
    url: Seq<char>,
    hash: Seq<char>,
)
    ensures
        assigned(db.put_commit(commit), url, hash) == assigned(db, url, hash),
{
}

/// A commit that was recorded is stored under its hash with the
/// contribution that it belongs to; where it belongs to one, that
/// contribution is one of the commit's repository that lists a prefix of
/// the commit's hash.
pub proof fn law_recorded_commit_is_claimed(db: DatabaseView, commit: crate::model::CommitView)
    requires
        db.wf(),
    ensures
        db.put_commit(crate::reconcile::reconciled(db, commit)).wf(),
        first_match(
            db.put_commit(crate::reconcile::reconciled(db, commit)).commits,
            with_hash(commit.hash),
        ) < db.put_commit(crate::reconcile::reconciled(db, commit)).commits.len(),
        db.put_commit(crate::reconcile::reconciled(db, commit)).commits[first_match(
            db.put_commit(crate::reconcile::reconciled(db, commit)).commits,
            with_hash(commit.hash),
        )] == crate::reconcile::reconciled(db, commit),
        crate::reconcile::reconciled(db, commit).contribution_id is Some ==> exists|i: int|
            0 <= i < db.contributions.len() && (#[trigger] db.contributions[i]).id
                == crate::reconcile::reconciled(db, commit).contribution_id
                && db.contributions[i].repository_url == commit.repository_url && claims(
                db.contributions[i],
                commit.hash,
            ),
{
    let row = crate::reconcile::reconciled(db, commit);
    let hit = with_hash(commit.hash);
    let after = db.put_commit(row);
    lemma_first_match_bounds(db.commits, hit);
    let i = first_match(db.commits, hit);
    assert(hit(after.commits[i]));
    assert forall|j: int| 0 <= j < i implies !hit(#[trigger] after.commits[j]) by {
        assert(after.commits[j] == db.commits[j]);
    }
    lemma_first_match_is(after.commits, hit, i);
    crate::database::lemma_put_commit_wf(db, row);
    if row.contribution_id is Some {
        law_assigned_claims(db, commit.repository_url, commit.hash);
    }
}

/// A store has exactly one default loadout.
pub proof fn law_one_default(db: DatabaseView)
    requires
        db.wf(),
    ensures
        first_match(db.loadouts, crate::state::is_default()) < db.loadouts.len(),
        forall|i: int|
            0 <= i < db.loadouts.len() ==> ((#[trigger] db.loadouts[i]).is_default <==> i
                == first_match(db.loadouts, crate::state::is_default())),
{
    lemma_first_match_bounds(db.loadouts, crate::state::is_default());
    let d = first_match(db.loadouts, crate::state::is_default());
    assert(crate::state::is_default()(db.loadouts[d]));
    assert forall|i: int| 0 <= i < db.loadouts.len() implies ((#[trigger] db.loadouts[i]).is_default
        <==> i == d) by {
        if db.loadouts[i].is_default && i != d {
            if i < d {
                assert(!(db.loadouts[i].is_default && db.loadouts[d].is_default));
            } else {
                assert(!(db.loadouts[d].is_default && db.loadouts[i].is_default));
            }
        }
    }
}

/// Opening a store over the rows of a store that was opened changes
/// nothing: what was seeded is not seeded again.
pub proof fn law_opening_again(rows: DatabaseView)
    requires
        rows.initialize() is Ok,
    ensures
        rows.initialize()->Ok_0.wf(),
        rows.initialize()->Ok_0.initialize() == rows.initialize(),
{
    let seeded = rows.with_seed_rules().with_seed_prompts();
    let opened = seeded.with_default_loadout();
    crate::seed::lemma_seed_names_differ();
    lemma_first_match_bounds(seeded.loadouts, crate::state::is_default());
    lemma_first_match_bounds(seeded.loadouts, loadout_named(crate::state::default_name()));
    if !seeded.has_default() {
        lemma_first_match_found(
            opened.loadouts,
            crate::state::is_default(),
            seeded.loadouts.len() as int,
        );
        assert forall|i: int| 0 <= i < seeded.loadouts.len() implies !(
        #[trigger] seeded.loadouts[i]).is_default && seeded.loadouts[i].name
            != crate::state::default_name() by {
            assert(!crate::state::is_default()(seeded.loadouts[i]));
            assert(!loadout_named(crate::state::default_name())(seeded.loadouts[i]));
        }
    }
}

/// A filter that selects every row keeps them all.
pub proof fn lemma_filter_keeps_all<T>(rows: Seq<T>, keep: spec_fn(T) -> bool)
    requires
        forall|i: int| 0 <= i < rows.len() ==> keep(#[trigger] rows[i]),
    ensures
        rows.filter(keep) == rows,
    decreases rows.len(),
{
    if rows.len() == 0 {
        rows.lemma_filter_len(keep);
        assert(rows.filter(keep) =~= rows);
    } else {
        let rest = rows.drop_last();
        assert(rows =~= rest.push(rows.last()));
        assert forall|i: int| 0 <= i < rest.len() implies keep(#[trigger] rest[i]) by {
            assert(rest[i] == rows[i]);
        }
        lemma_filter_keeps_all(rest, keep);
        rest.lemma_filter_push(rows.last(), keep);
        assert(keep(rows[rows.len() - 1]));
    }
}

/// Loading a loadout gives back what was saved into it: a prompt that
/// was made after the saving is deleted, and the prompts and the rules
/// that were saved stay, all of them.
pub proof fn law_load_restores_saved(db: DatabaseView, name: Seq<char>, prompt: PromptView)
    requires
        db.wf(),
        db.has_loadout(name),
        !db.has_prompt(prompt.name),
        db.next_prompt_id < i64::MAX,
    ensures
        db.save_current_to_loadout(name).add_prompt(prompt).has_prompt(prompt.name),
        db.save_current_to_loadout(name).add_prompt(prompt).load_loadout(name).prompts
            == db.prompts,
        !db.save_current_to_loadout(name).add_prompt(prompt).load_loadout(name).has_prompt(
            prompt.name,
        ),
        db.save_current_to_loadout(name).add_prompt(prompt).load_loadout(name).agent_rules
            == db.agent_rules,
{
    let saved = db.save_current_to_loadout(name);
    let grown = saved.add_prompt(prompt);
    let i = db.loadout_at(name);
    lemma_first_match_bounds(db.loadouts, loadout_named(name));
    assert(loadout_named(name)(saved.loadouts[i]));
    assert forall|j: int| 0 <= j < i implies !loadout_named(name)(#[trigger] saved.loadouts[j]) by {
        assert(saved.loadouts[j] == db.loadouts[j]);
    }
    lemma_first_match_is(saved.loadouts, loadout_named(name), i);
    let ids = prompt_ids(db.prompts);
    let keep = prompt_among(ids);
    let new_row = PromptView { id: db.next_prompt_id, ..prompt };
    assert forall|j: int| 0 <= j < db.prompts.len() implies keep(#[trigger] db.prompts[j]) by {
        assert(ids[j] == db.prompts[j].id);
    }
    lemma_filter_keeps_all(db.prompts, keep);
    db.prompts.lemma_filter_push(new_row, keep);
    if keep(new_row) {
        let j = choose|j: int| 0 <= j < ids.len() && ids[j] == new_row.id;
        assert(db.prompts[j].id < db.next_prompt_id);
    }
    let rules = rule_ids(db.agent_rules);
    assert forall|j: int| 0 <= j < db.agent_rules.len() implies rule_among(rules)(
        #[trigger] db.agent_rules[j],
    ) by {
        assert(rules[j] == db.agent_rules[j].id);
    }
    lemma_filter_keeps_all(db.agent_rules, rule_among(rules));
    lemma_first_match_found(grown.prompts, prompt_named(prompt.name), db.prompts.len() as int);
}

} // verus!
