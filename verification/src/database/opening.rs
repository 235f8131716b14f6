//! Opening a store over the rows that were kept, and handing its rows
//! back to be kept.

use vstd::prelude::*;
use crate::database::{Database, Snapshot};
use crate::error::{Error, ErrorView};
use crate::model::{
    lemma_views_push, views, AgentRule, Commit, Contribution, Loadout, Prompt, Repository,
};
use crate::order::{check_keys, check_numbers, keys_apart, numbers_apart, Record};
use crate::seed::{lemma_seed_names_differ, make_seed_prompts, make_seed_rules};
use crate::state::{
    default_name, first_match, is_default, lemma_first_match_bounds, lemma_first_match_found,
    lemma_first_match_is, loadout_named, prompt_ids, rule_ids,
};

verus! {

/// A copy of `rows`.
pub(crate) fn copy_rows<T: Record>(rows: &Vec<T>) -> (r: Vec<T>)
    ensures
        views(r@) == views(rows@),
{
    let mut out: Vec<T> = Vec::new();
    let mut i: usize = 0;
    while i < rows.len()
        invariant
            i <= rows@.len(),
            views(out@) == views(rows@).take(i as int),
        decreases rows@.len() - i,
    {
        let ghost before = views(out@);
        out.push(rows[i].duplicate());
        assert(views(out@) =~= before.push(views(rows@)[i as int]));
        assert(views(rows@).take(i + 1) =~= views(rows@).take(i as int).push(
            views(rows@)[i as int],
        ));
        i += 1;
    }
    assert(views(rows@).take(rows@.len() as int) =~= views(rows@));
    out
}

/// The place of the default loadout.
pub(crate) fn find_default(rows: &Vec<Loadout>) -> (r: usize)
    ensures
        r == first_match(views(rows@), is_default()),
        r <= rows@.len(),
        r < rows@.len() ==> rows@[r as int].is_default,
{
    let mut i: usize = 0;
    while i < rows.len() && !rows[i].is_default
        invariant
            i <= rows@.len(),
            forall|j: int| 0 <= j < i ==> !rows@[j].is_default,
        decreases rows@.len() - i,
    {
        i += 1;
    }
    proof {
        let all = views(rows@);
        assert forall|j: int| 0 <= j < i implies !is_default()(#[trigger] all[j]) by {
            assert(all[j].is_default == rows@[j].is_default);
        }
        lemma_first_match_is(all, is_default(), i as int);
    }
    i
}

/// The place of the loadout named `name`.
pub(crate) fn find_loadout(rows: &Vec<Loadout>, name: &str) -> (r: usize)
    ensures
        r == first_match(views(rows@), loadout_named(name@)),
        r <= rows@.len(),
        r < rows@.len() ==> rows@[r as int].name@ == name@,
{
    let mut i: usize = 0;
    while i < rows.len() && !rows[i].name.as_str().eq(name)
        invariant
            i <= rows@.len(),
            forall|j: int| 0 <= j < i ==> rows@[j].name@ != name@,
        decreases rows@.len() - i,
    {
        i += 1;
    }
    proof {
        let all = views(rows@);
        assert forall|j: int| 0 <= j < i implies !loadout_named(name@)(#[trigger] all[j]) by {
            assert(all[j].name == rows@[j].name@);
        }
        lemma_first_match_is(all, loadout_named(name@), i as int);
    }
    i
}

/// Whether at most one loadout is the default one.
fn one_default_at_most(rows: &Vec<Loadout>) -> (r: bool)
    ensures
        r == forall|i: int, j: int|
            0 <= i < j < rows@.len() ==> !((#[trigger] views(rows@)[i]).is_default && (
            #[trigger] views(rows@)[j]).is_default),
{
    let ghost all = views(rows@);
    let first = find_default(rows);
    let mut j: usize = first;
    if j < rows.len() {
        j += 1;
    }
    proof {
        lemma_first_match_bounds(all, is_default());
    }
    while j < rows.len()
        invariant
            first < j <= rows@.len() || first == j == rows@.len(),
            all == views(rows@),
            first < rows@.len() ==> rows@[first as int].is_default,
            forall|k: int| 0 <= k < j && k != first ==> !(#[trigger] all[k]).is_default,
        decreases rows@.len() - j,
    {
        assert(all[j as int] == rows@[j as int]@);
        if rows[j].is_default {
            assert(all[first as int] == rows@[first as int]@);
            assert(all[j as int] == rows@[j as int]@);
            assert(all[first as int].is_default && all[j as int].is_default);
            return false;
        }
        j += 1;
    }
    true
}

/// The numbers of `prompts`, in order.
pub(crate) fn collect_prompt_ids(prompts: &Vec<Prompt>) -> (r: Vec<i64>)
    ensures
        r@ == prompt_ids(views(prompts@)),
{
    let mut out: Vec<i64> = Vec::new();
    let mut i: usize = 0;
    while i < prompts.len()
        invariant
            i <= prompts@.len(),
            out@ == prompt_ids(views(prompts@)).take(i as int),
        decreases prompts@.len() - i,
    {
        out.push(prompts[i].id);
        assert(out@ =~= prompt_ids(views(prompts@)).take(i + 1));
        i += 1;
    }
    assert(out@ =~= prompt_ids(views(prompts@)));
    out
}

/// The numbers of `rules`, in order.
pub(crate) fn collect_rule_ids(rules: &Vec<AgentRule>) -> (r: Vec<i64>)
    ensures
        r@ == rule_ids(views(rules@)),
{
    let mut out: Vec<i64> = Vec::new();
    let mut i: usize = 0;
    while i < rules.len()
        invariant
            i <= rules@.len(),
            out@ == rule_ids(views(rules@)).take(i as int),
        decreases rules@.len() - i,
    {
        out.push(rules[i].id);
        assert(out@ =~= rule_ids(views(rules@)).take(i + 1));
        i += 1;
    }
    assert(out@ =~= rule_ids(views(rules@)));
    out
}

/// Whether `rows` keep their keys.
fn validate(rows: &Snapshot) -> (r: bool)
    ensures
        r == rows@.rows_wf(),
{
    let repositories = check_keys::<Repository>(&rows.repositories);
    let contributions = check_keys::<Contribution>(&rows.contributions) && check_numbers::<
        Contribution,
    >(&rows.contributions, rows.next_contribution_id);
    let commits = check_keys::<Commit>(&rows.commits);
    let rules = check_keys::<AgentRule>(&rows.agent_rules) && check_numbers::<AgentRule>(
        &rows.agent_rules,
        rows.next_rule_id,
    );
    let prompts = check_keys::<Prompt>(&rows.prompts) && check_numbers::<Prompt>(
        &rows.prompts,
        rows.next_prompt_id,
    );
    let loadouts = check_keys::<Loadout>(&rows.loadouts) && check_numbers::<Loadout>(
        &rows.loadouts,
        rows.next_loadout_id,
    ) && one_default_at_most(&rows.loadouts);
    proof {
        let db = rows@;
        assert(keys_apart::<Repository>(db.repositories) == crate::state::repositories_wf(
            db.repositories,
        ));
        assert(keys_apart::<Commit>(db.commits) == crate::state::commits_wf(db.commits));
        assert((keys_apart::<Contribution>(db.contributions) && numbers_apart::<Contribution>(
            db.contributions,
            db.next_contribution_id,
        )) == crate::state::contributions_wf(db.contributions, db.next_contribution_id));
        assert((keys_apart::<AgentRule>(db.agent_rules) && numbers_apart::<AgentRule>(
            db.agent_rules,
            db.next_rule_id,
        )) == crate::state::rules_wf(db.agent_rules, db.next_rule_id));
        assert((keys_apart::<Prompt>(db.prompts) && numbers_apart::<Prompt>(
            db.prompts,
            db.next_prompt_id,
        )) == crate::state::prompts_wf(db.prompts, db.next_prompt_id));
    }
    repositories && contributions && commits && rules && prompts && loadouts
        && rows.next_contribution_id >= 1 && rows.next_rule_id >= 1 && rows.next_prompt_id >= 1
        && rows.next_loadout_id >= 1
}

/// Gives a store without rules the seed rules.
fn initialize_agent_rules(rows: &mut Snapshot) -> (r: Result<(), Error>)
    requires
        old(rows)@.rows_wf(),
    ensures
        r is Ok <==> old(rows)@.can_seed_rules(),
        r is Ok ==> final(rows)@ == old(rows)@.with_seed_rules() && final(rows)@.rows_wf(),
        r is Err ==> r->Err_0@ == ErrorView::IdsExhausted && final(rows)@ == old(rows)@,
{
    if rows.agent_rules.len() > 0 {
        return Ok(());
    }
    if rows.next_rule_id > i64::MAX - 3 {
        return Err(Error::IdsExhausted);
    }
    proof {
        lemma_seed_names_differ();
    }
    rows.agent_rules = make_seed_rules(rows.next_rule_id);
    rows.next_rule_id = rows.next_rule_id + 3;
    Ok(())
}

/// Gives a store without prompts the seed prompts.
fn initialize_prompts(rows: &mut Snapshot) -> (r: Result<(), Error>)
    requires
        old(rows)@.rows_wf(),
    ensures
        r is Ok <==> old(rows)@.can_seed_prompts(),
        r is Ok ==> final(rows)@ == old(rows)@.with_seed_prompts() && final(rows)@.rows_wf(),
        r is Err ==> r->Err_0@ == ErrorView::IdsExhausted && final(rows)@ == old(rows)@,
{
    if rows.prompts.len() > 0 {
        return Ok(());
    }
    if rows.next_prompt_id > i64::MAX - 2 {
        return Err(Error::IdsExhausted);
    }
    proof {
        lemma_seed_names_differ();
    }
    rows.prompts = make_seed_prompts(rows.next_prompt_id);
    rows.next_prompt_id = rows.next_prompt_id + 2;
    Ok(())
}

/// Gives a store without a default loadout one that holds every prompt
/// and every rule.
fn initialize_default_loadout(rows: &mut Snapshot) -> (r: Result<(), Error>)
    requires
        old(rows)@.rows_wf(),
    ensures
        match old(rows)@.default_loadout_error() {
            Some(e) => r is Err && r->Err_0@ == e && final(rows)@ == old(rows)@,
            None => r is Ok && final(rows)@ == old(rows)@.with_default_loadout()
                && final(rows)@.wf(),
        },
{
    let found = find_default(&rows.loadouts);
    if found < rows.loadouts.len() {
        return Ok(());
    }
    let taken = find_loadout(&rows.loadouts, "default");
    if taken < rows.loadouts.len() {
        return Err(Error::LoadoutExists(String::from_str("default")));
    }
    if rows.next_loadout_id == i64::MAX {
        return Err(Error::IdsExhausted);
    }
    let id = rows.next_loadout_id;
    let row = Loadout {
        id,
        name: String::from_str("default"),
        is_default: true,
        prompt_ids: collect_prompt_ids(&rows.prompts),
        rule_ids: collect_rule_ids(&rows.agent_rules),
    };
    proof {
        let before = rows@;
        lemma_views_push(rows.loadouts@, row);
        lemma_first_match_bounds(before.loadouts, is_default());
        lemma_first_match_bounds(before.loadouts, loadout_named(default_name()));
        let after = before.loadouts.push(row@);
        lemma_first_match_found(after, is_default(), before.loadouts.len() as int);
        assert forall|i: int| 0 <= i < before.loadouts.len() implies !(
        #[trigger] before.loadouts[i]).is_default && before.loadouts[i].name != default_name() by {
            assert(!is_default()(before.loadouts[i]));
            assert(!loadout_named(default_name())(before.loadouts[i]));
        }
    }
    rows.loadouts.push(row);
    rows.next_loadout_id = id + 1;
    Ok(())
}

/// Makes rows that keep their keys a store: seeds the rules and the
/// prompts where there are none, and makes the default loadout where it
/// is missing.
fn initialize_schema(rows: &mut Snapshot) -> (r: Result<(), Error>)
    requires
        old(rows)@.rows_wf(),
    ensures
        match old(rows)@.initialize() {
            Ok(db) => r is Ok && final(rows)@ == db && db.wf(),
            Err(e) => r is Err && r->Err_0@ == e,
        },
{
    match initialize_agent_rules(rows) {
        Ok(()) => {},
        Err(e) => {
            return Err(e);
        },
    }
    match initialize_prompts(rows) {
        Ok(()) => {},
        Err(e) => {
            return Err(e);
        },
    }
    initialize_default_loadout(rows)
}

impl Database {
    /// Opens the store over the rows that were kept, or over no rows for
    /// a new store. Rows that do not keep their keys are refused. The seed
    /// rules and prompts are put where the store holds no rule or no
    /// prompt, and the default loadout is made where there is none; it
    /// then holds every prompt and every rule.
    pub fn open(snapshot: Snapshot) -> (r: Result<Database, Error>)
        ensures
            match snapshot@.initialize() {
                Ok(db) => r is Ok && r->Ok_0@ == db && db.wf(),
                Err(e) => r is Err && r->Err_0@ == e,
            },
    {
        let mut rows = snapshot;
        if !validate(&rows) {
            return Err(Error::InvalidSnapshot);
        }
        match initialize_schema(&mut rows) {
            Ok(()) => Ok(Database { rows }),
            Err(e) => Err(e),
        }
    }

    /// The rows of the store, to be kept.
    pub fn snapshot(&self) -> (r: Snapshot)
        ensures
            r@ == self@,
            self@.wf(),
    {
        proof {
            use_type_invariant(self);
        }
        Snapshot {
            repositories: copy_rows(&self.rows.repositories),
            contributions: copy_rows(&self.rows.contributions),
            commits: copy_rows(&self.rows.commits),
            agent_rules: copy_rows(&self.rows.agent_rules),
            prompts: copy_rows(&self.rows.prompts),
            loadouts: copy_rows(&self.rows.loadouts),
            next_contribution_id: self.rows.next_contribution_id,
            next_rule_id: self.rows.next_rule_id,
            next_prompt_id: self.rows.next_prompt_id,
            next_loadout_id: self.rows.next_loadout_id,
        }
    }
}

impl Snapshot {
    /// The rows of a store that was never opened: none, and every table
    /// numbers its rows from 1.
    pub fn new() -> (r: Snapshot)
        ensures
            r@.rows_wf(),
            r@.repositories.len() == 0,
            r@.contributions.len() == 0,
            r@.commits.len() == 0,
            r@.agent_rules.len() == 0,
            r@.prompts.len() == 0,
            r@.loadouts.len() == 0,
            r@.next_contribution_id == 1,
            r@.next_rule_id == 1,
            r@.next_prompt_id == 1,
            r@.next_loadout_id == 1,
    {
        Snapshot {
            repositories: Vec::new(),
            contributions: Vec::new(),
            commits: Vec::new(),
            agent_rules: Vec::new(),
            prompts: Vec::new(),
            loadouts: Vec::new(),
            next_contribution_id: 1,
            next_rule_id: 1,
            next_prompt_id: 1,
            next_loadout_id: 1,
        }
    }
}

} // verus!
