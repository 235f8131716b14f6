//! Loadouts, and the rules and prompts that they choose among.

use vstd::prelude::*;
use crate::database::opening::{collect_prompt_ids, collect_rule_ids, find_loadout};
use crate::database::Database;
use crate::error::{Error, ErrorView};
use crate::model::{
    lemma_views_push, lemma_views_update, views, AgentRule, AgentRuleView, Loadout, LoadoutView,
    Prompt, PromptView,
};
use crate::order::{is_listing, listed, listing, retain, Record};
use crate::state::{
    every, first_match, in_order, is_default, lemma_filter_order, lemma_first_match_bounds,
    lemma_first_match_found, lemma_first_match_is, loadout_named, prompt_among, prompt_named,
    rule_among, rule_named, DatabaseView,
};
use crate::text::lemma_lex_total;

verus! {

/// What a listing of loadouts tells of each: its number, its name, and
/// whether it is the default one.
pub open spec fn summaries(rows: Seq<LoadoutView>) -> Seq<(i64, Seq<char>, bool)> {
    Seq::new(rows.len(), |i: int| (rows[i].id, rows[i].name, rows[i].is_default))
}

/// The summaries of `rows`, their names as texts.
pub open spec fn summary_views(rows: Seq<(i64, String, bool)>) -> Seq<(i64, Seq<char>, bool)> {
    Seq::new(rows.len(), |i: int| (rows[i].0, rows[i].1@, rows[i].2))
}

/// Whether `id` is among `ids`.
pub(crate) fn contains_id(ids: &Vec<i64>, id: i64) -> (r: bool)
    ensures
        r == ids@.contains(id),
{
    let mut i: usize = 0;
    while i < ids.len()
        invariant
            i <= ids@.len(),
            forall|j: int| 0 <= j < i ==> ids@[j] != id,
        decreases ids@.len() - i,
    {
        if ids[i] == id {
            return true;
        }
        i += 1;
    }
    false
}

/// Rules that a filter keeps are rules with numbers and names apart.
pub proof fn lemma_kept_rules_wf(
    rows: Seq<AgentRuleView>,
    next: i64,
    keep: spec_fn(AgentRuleView) -> bool,
)
    requires
        crate::state::rules_wf(rows, next),
    ensures
        crate::state::rules_wf(rows.filter(keep), next),
{
    let kept = rows.filter(keep);
    lemma_filter_order(rows, keep);
    assert forall|i: int| 0 <= i < kept.len() implies 1 <= (#[trigger] kept[i]).id < next by {
        assert(rows.contains(kept[i]));
        let a = choose|a: int| 0 <= a < rows.len() && rows[a] == kept[i];
        assert(1 <= rows[a].id < next);
    }
    assert forall|i: int, j: int| 0 <= i < j < kept.len() implies (#[trigger] kept[i]).id != (
    #[trigger] kept[j]).id && kept[i].name != kept[j].name by {
        assert(in_order(rows, kept[i], kept[j]));
        let (a, b) = choose|a: int, b: int|
            0 <= a < b < rows.len() && rows[a] == kept[i] && rows[b] == kept[j];
        assert(rows[a].id != rows[b].id && rows[a].name != rows[b].name);
    }
}

/// Prompts that a filter keeps are prompts with numbers and names apart.
pub proof fn lemma_kept_prompts_wf(
    rows: Seq<PromptView>,
    next: i64,
    keep: spec_fn(PromptView) -> bool,
)
    requires
        crate::state::prompts_wf(rows, next),
    ensures
        crate::state::prompts_wf(rows.filter(keep), next),
{
    let kept = rows.filter(keep);
    lemma_filter_order(rows, keep);
    assert forall|i: int| 0 <= i < kept.len() implies 1 <= (#[trigger] kept[i]).id < next by {
        assert(rows.contains(kept[i]));
        let a = choose|a: int| 0 <= a < rows.len() && rows[a] == kept[i];
        assert(1 <= rows[a].id < next);
    }
    assert forall|i: int, j: int| 0 <= i < j < kept.len() implies (#[trigger] kept[i]).id != (
    #[trigger] kept[j]).id && kept[i].name != kept[j].name by {
        assert(in_order(rows, kept[i], kept[j]));
        let (a, b) = choose|a: int, b: int|
            0 <= a < b < rows.len() && rows[a] == kept[i] && rows[b] == kept[j];
        assert(rows[a].id != rows[b].id && rows[a].name != rows[b].name);
    }
}

/// Loading a loadout leaves a store.
pub proof fn lemma_load_loadout_wf(db: DatabaseView, name: Seq<char>)
    requires
        db.wf(),
    ensures
        db.load_loadout(name).wf(),
{
    let loadout = db.loadouts[db.loadout_at(name)];
    lemma_kept_prompts_wf(db.prompts, db.next_prompt_id, prompt_among(loadout.prompt_ids));
    lemma_kept_rules_wf(db.agent_rules, db.next_rule_id, rule_among(loadout.rule_ids));
}

/// Deleting a loadout that is not the default one leaves a store.
pub proof fn lemma_delete_loadout_wf(db: DatabaseView, name: Seq<char>)
    requires
        db.wf(),
        db.has_loadout(name),
        !db.loadouts[db.loadout_at(name)].is_default,
    ensures
        db.delete_loadout(name).wf(),
{
    let i = db.loadout_at(name);
    lemma_first_match_bounds(db.loadouts, loadout_named(name));
    let after = db.loadouts.remove(i);
    lemma_first_match_bounds(db.loadouts, is_default());
    let d = first_match(db.loadouts, is_default());
    let moved = if d < i {
        d
    } else {
        d - 1
    };
    assert(after[moved] == db.loadouts[d]);
    lemma_first_match_found(after, is_default(), moved);
    assert forall|a: int| 0 <= a < after.len() implies (#[trigger] after[a]) == db.loadouts[if a
        < i {
        a
    } else {
        a + 1
    }] by {}
    assert forall|a: int, b: int| 0 <= a < b < after.len() implies (#[trigger] after[a]).id != (
    #[trigger] after[b]).id && after[a].name != after[b].name && !(after[a].is_default
        && after[b].is_default) by {
        let a0 = if a < i {
            a
        } else {
            a + 1
        };
        let b0 = if b < i {
            b
        } else {
            b + 1
        };
        assert(after[a] == db.loadouts[a0] && after[b] == db.loadouts[b0]);
    }
}

/// Saving into a loadout leaves a store.
pub proof fn lemma_save_loadout_wf(db: DatabaseView, name: Seq<char>)
    requires
        db.wf(),
        db.has_loadout(name),
    ensures
        db.save_current_to_loadout(name).wf(),
{
    let i = db.loadout_at(name);
    lemma_first_match_bounds(db.loadouts, loadout_named(name));
    let after = db.save_current_to_loadout(name).loadouts;
    lemma_first_match_bounds(db.loadouts, is_default());
    let d = first_match(db.loadouts, is_default());
    assert(after[d].is_default);
    lemma_first_match_found(after, is_default(), d);
}

/// A new loadout under a new name leaves a store.
pub proof fn lemma_create_loadout_wf(db: DatabaseView, name: Seq<char>)
    requires
        db.wf(),
        !db.has_loadout(name),
        db.next_loadout_id < i64::MAX,
    ensures
        db.create_loadout(name).wf(),
{
    let after = db.create_loadout(name).loadouts;
    lemma_first_match_bounds(db.loadouts, is_default());
    lemma_first_match_bounds(db.loadouts, loadout_named(name));
    let d = first_match(db.loadouts, is_default());
    assert(after[d] == db.loadouts[d]);
    lemma_first_match_found(after, is_default(), d);
    assert forall|a: int| 0 <= a < db.loadouts.len() implies (#[trigger] db.loadouts[a]).name
        != name by {
        assert(!loadout_named(name)(db.loadouts[a]));
    }
}

/// The place of the rule named `name`.
pub(crate) fn find_rule(rows: &Vec<AgentRule>, name: &str) -> (r: usize)
    ensures
        r == first_match(views(rows@), rule_named(name@)),
        r <= rows@.len(),
{
    let mut i: usize = 0;
    while i < rows.len() && !rows[i].name.as_str().eq(name)
        invariant
            i <= rows@.len(),
            forall|j: int| 0 <= j < i ==> rows@[j].name@ != name@,
        decreases rows@.len() - i,
    {
        i += 1;
    }
    proof {
        let all = views(rows@);
        assert forall|j: int| 0 <= j < i implies !rule_named(name@)(#[trigger] all[j]) by {
            assert(all[j].name == rows@[j].name@);
        }
        if i < rows@.len() {
            assert(all[i as int].name == rows@[i as int].name@);
        }
        lemma_first_match_is(all, rule_named(name@), i as int);
    }
    i
}

/// The place of the prompt named `name`.
pub(crate) fn find_prompt(rows: &Vec<Prompt>, name: &str) -> (r: usize)
    ensures
        r == first_match(views(rows@), prompt_named(name@)),
        r <= rows@.len(),
{
    let mut i: usize = 0;
    while i < rows.len() && !rows[i].name.as_str().eq(name)
        invariant
            i <= rows@.len(),
            forall|j: int| 0 <= j < i ==> rows@[j].name@ != name@,
        decreases rows@.len() - i,
    {
        i += 1;
    }
    proof {
        let all = views(rows@);
        assert forall|j: int| 0 <= j < i implies !prompt_named(name@)(#[trigger] all[j]) by {
            assert(all[j].name == rows@[j].name@);
        }
        if i < rows@.len() {
            assert(all[i as int].name == rows@[i as int].name@);
        }
        lemma_first_match_is(all, prompt_named(name@), i as int);
    }
    i
}

impl Database {
    /// Makes a loadout named `name` that holds nothing, and returns its
    /// number. It fails where a loadout has this name already.
    pub fn create_loadout(&mut self, name: &str) -> (r: Result<i64, Error>)
        ensures
            old(self)@.has_loadout(name@) ==> r is Err && r->Err_0@ == ErrorView::LoadoutExists(
                name@,
            ),
            !old(self)@.has_loadout(name@) && old(self)@.next_loadout_id == i64::MAX ==> r is Err
                && r->Err_0@ == ErrorView::IdsExhausted,
            !old(self)@.has_loadout(name@) && old(self)@.next_loadout_id < i64::MAX ==> r is Ok
                && r->Ok_0 == old(self)@.next_loadout_id && final(self)@ == old(self)@.create_loadout(name@),
            r is Err ==> final(self)@ == old(self)@,
            final(self)@.wf(),
    {
        let mut rows = self.take();
        let i = find_loadout(&rows.loadouts, name);
        if i < rows.loadouts.len() {
            *self = Database { rows };
            return Err(Error::LoadoutExists(String::from_str(name)));
        }
        if rows.next_loadout_id == i64::MAX {
            *self = Database { rows };
            return Err(Error::IdsExhausted);
        }
        let id = rows.next_loadout_id;
        let row = Loadout {
            id,
            name: String::from_str(name),
            is_default: false,
            prompt_ids: Vec::new(),
            rule_ids: Vec::new(),
        };
        proof {
            lemma_create_loadout_wf(rows@, name@);
            lemma_views_push(rows.loadouts@, row);
            assert(row@.prompt_ids =~= Seq::<i64>::empty());
            assert(row@.rule_ids =~= Seq::<i64>::empty());
        }
        rows.loadouts.push(row);
        rows.next_loadout_id = id + 1;
        *self = Database { rows };
        Ok(id)
    }

    /// The number of the loadout named `name`, where there is one.
    pub fn get_loadout_id(&self, name: &str) -> (r: Option<i64>)
        ensures
            r is Some <==> self@.has_loadout(name@),
            r is Some ==> r->0 == self@.loadouts[self@.loadout_at(name@)].id,
            self@.wf(),
    {
        proof {
            use_type_invariant(self);
        }
        let i = find_loadout(&self.rows.loadouts, name);
        if i < self.rows.loadouts.len() {
            assert(views(self.rows.loadouts@)[i as int].id == self.rows.loadouts@[i as int].id);
            Some(self.rows.loadouts[i].id)
        } else {
            None
        }
    }

    /// Every loadout, the default one first, the others by name: of each
    /// its number, its name, and whether it is the default one.
    pub fn list_loadouts(&self) -> (r: Vec<(i64, String, bool)>)
        ensures
            summary_views(r@) == summaries(listed::<Loadout>(self@.loadouts, every())),
            is_listing::<Loadout>(listed::<Loadout>(self@.loadouts, every()), self@.loadouts, every()),
            self@.wf(),
    {
        proof {
            use_type_invariant(self);
        }
        let rows = &self.rows.loadouts;
        let mut mask: Vec<bool> = Vec::new();
        let mut i: usize = 0;
        while i < rows.len()
            invariant
                i <= rows@.len(),
                mask@.len() == i,
                forall|j: int| 0 <= j < i ==> mask@[j],
            decreases rows@.len() - i,
        {
            mask.push(true);
            i += 1;
        }
        proof {
            let all = views(rows@);
            assert forall|a: int, b: int|
                0 <= a < all.len() && 0 <= b < all.len() && a != b implies Loadout::before(
                all[a],
                all[b],
            ) || Loadout::before(all[b], all[a]) by {
                lemma_lex_total(all[a].name, all[b].name);
                if a < b {
                    assert(all[a].name != all[b].name);
                } else {
                    assert(all[b].name != all[a].name);
                }
            }
        }
        let sorted = listing(rows, &mask, Ghost(every()));
        let mut out: Vec<(i64, String, bool)> = Vec::new();
        let mut k: usize = 0;
        while k < sorted.len()
            invariant
                k <= sorted@.len(),
                summary_views(out@) == summaries(views(sorted@)).take(k as int),
            decreases sorted@.len() - k,
        {
            let ghost before = summary_views(out@);
            out.push((sorted[k].id, sorted[k].name.clone(), sorted[k].is_default));
            assert(summary_views(out@) =~= before.push(summaries(views(sorted@))[k as int]));
            assert(summaries(views(sorted@)).take(k + 1) =~= summaries(views(sorted@)).take(
                k as int,
            ).push(summaries(views(sorted@))[k as int]));
            k += 1;
        }
        assert(summaries(views(sorted@)).take(sorted@.len() as int) =~= summaries(
            views(sorted@),
        ));
        out
    }

    /// Deletes the loadout named `name`. It fails where there is none, and
    /// where it is the default loadout.
    pub fn delete_loadout(&mut self, name: &str) -> (r: Result<(), Error>)
        ensures
            !old(self)@.has_loadout(name@) ==> r is Err && r->Err_0@ == ErrorView::LoadoutNotFound(
                name@,
            ),
            old(self)@.has_loadout(name@) && old(self)@.loadouts[old(self)@.loadout_at(
                name@,
            )].is_default ==> r is Err && r->Err_0@ == ErrorView::DefaultLoadout,
            old(self)@.has_loadout(name@) && !old(self)@.loadouts[old(self)@.loadout_at(
                name@,
            )].is_default ==> r is Ok && final(self)@ == old(self)@.delete_loadout(name@),
            r is Err ==> final(self)@ == old(self)@,
            final(self)@.wf(),
    {
        let mut rows = self.take();
        let i = find_loadout(&rows.loadouts, name);
        if i >= rows.loadouts.len() {
            *self = Database { rows };
            return Err(Error::LoadoutNotFound(String::from_str(name)));
        }
        assert(views(rows.loadouts@)[i as int].is_default == rows.loadouts@[i as int].is_default);
        if rows.loadouts[i].is_default {
            *self = Database { rows };
            return Err(Error::DefaultLoadout);
        }
        proof {
            lemma_delete_loadout_wf(rows@, name@);
            assert(views(rows.loadouts@.remove(i as int)) =~= views(rows.loadouts@).remove(
                i as int,
            ));
        }
        rows.loadouts.remove(i);
        *self = Database { rows };
        Ok(())
    }

    /// Makes the loadout named `loadout_name` hold every prompt and every
    /// rule that is stored, in place of what it held. It fails where there
    /// is no such loadout.
    pub fn save_current_to_loadout(&mut self, loadout_name: &str) -> (r: Result<(), Error>)
        ensures
            !old(self)@.has_loadout(loadout_name@) ==> r is Err && r->Err_0@
                == ErrorView::LoadoutNotFound(loadout_name@) && final(self)@ == old(self)@,
            old(self)@.has_loadout(loadout_name@) ==> r is Ok && final(self)@ == old(self)@.save_current_to_loadout(loadout_name@),
            final(self)@.wf(),
    {
        let mut rows = self.take();
        let i = find_loadout(&rows.loadouts, loadout_name);
        if i >= rows.loadouts.len() {
            *self = Database { rows };
            return Err(Error::LoadoutNotFound(String::from_str(loadout_name)));
        }
        let row = Loadout {
            id: rows.loadouts[i].id,
            name: rows.loadouts[i].name.clone(),
            is_default: rows.loadouts[i].is_default,
            prompt_ids: collect_prompt_ids(&rows.prompts),
            rule_ids: collect_rule_ids(&rows.agent_rules),
        };
        proof {
            lemma_save_loadout_wf(rows@, loadout_name@);
            lemma_views_update(rows.loadouts@, i as int, row);
            assert(views(rows.loadouts@)[i as int] == rows.loadouts@[i as int]@);
        }
        rows.loadouts.set(i, row);
        *self = Database { rows };
        Ok(())
    }

    /// Deletes every prompt and every rule that the loadout named
    /// `loadout_name` does not hold. It fails where there is no such
    /// loadout.
    pub fn load_loadout(&mut self, loadout_name: &str) -> (r: Result<(), Error>)
        ensures
            !old(self)@.has_loadout(loadout_name@) ==> r is Err && r->Err_0@
                == ErrorView::LoadoutNotFound(loadout_name@) && final(self)@ == old(self)@,
            old(self)@.has_loadout(loadout_name@) ==> r is Ok && final(self)@ == old(self)@.load_loadout(loadout_name@),
            final(self)@.wf(),
    {
        let mut rows = self.take();
        let i = find_loadout(&rows.loadouts, loadout_name);
        if i >= rows.loadouts.len() {
            *self = Database { rows };
            return Err(Error::LoadoutNotFound(String::from_str(loadout_name)));
        }
        let ghost before = rows@;
        let ghost chosen = before.loadouts[i as int];
        proof {
            lemma_load_loadout_wf(before, loadout_name@);
            assert(chosen == rows.loadouts@[i as int]@);
        }
        let mut prompt_mask: Vec<bool> = Vec::new();
        let mut k: usize = 0;
        while k < rows.prompts.len()
            invariant
                k <= rows.prompts@.len(),
                i < rows.loadouts@.len(),
                prompt_mask@.len() == k,
                forall|j: int|
                    0 <= j < k ==> prompt_mask@[j] == rows.loadouts@[i as int].prompt_ids@.contains(
                        rows.prompts@[j].id,
                    ),
            decreases rows.prompts@.len() - k,
        {
            prompt_mask.push(contains_id(&rows.loadouts[i].prompt_ids, rows.prompts[k].id));
            k += 1;
        }
        let mut rule_mask: Vec<bool> = Vec::new();
        let mut k: usize = 0;
        while k < rows.agent_rules.len()
            invariant
                k <= rows.agent_rules@.len(),
                i < rows.loadouts@.len(),
                rule_mask@.len() == k,
                forall|j: int|
                    0 <= j < k ==> rule_mask@[j] == rows.loadouts@[i as int].rule_ids@.contains(
                        rows.agent_rules@[j].id,
                    ),
            decreases rows.agent_rules@.len() - k,
        {
            rule_mask.push(contains_id(&rows.loadouts[i].rule_ids, rows.agent_rules[k].id));
            k += 1;
        }
        proof {
            assert forall|j: int| 0 <= j < rows.prompts@.len() implies prompt_mask@[j]
                == prompt_among(chosen.prompt_ids)(#[trigger] views(rows.prompts@)[j]) by {
                assert(views(rows.prompts@)[j].id == rows.prompts@[j].id);
            }
            assert forall|j: int| 0 <= j < rows.agent_rules@.len() implies rule_mask@[j]
                == rule_among(chosen.rule_ids)(#[trigger] views(rows.agent_rules@)[j]) by {
                assert(views(rows.agent_rules@)[j].id == rows.agent_rules@[j].id);
            }
        }
        let prompts = retain(&rows.prompts, &prompt_mask, Ghost(prompt_among(chosen.prompt_ids)));
        let rules = retain(&rows.agent_rules, &rule_mask, Ghost(rule_among(chosen.rule_ids)));
        rows.prompts = prompts;
        rows.agent_rules = rules;
        *self = Database { rows };
        Ok(())
    }

    /// Loads the loadout named `default`.
    pub fn reload_default_loadout(&mut self) -> (r: Result<(), Error>)
        ensures
            !old(self)@.has_loadout(crate::state::default_name()) ==> r is Err && r->Err_0@
                == ErrorView::LoadoutNotFound(crate::state::default_name()) && final(self)@ == old(self)@,
            old(self)@.has_loadout(crate::state::default_name()) ==> r is Ok && final(self)@
                == old(self)@.load_loadout(crate::state::default_name()),
            final(self)@.wf(),
    {
        self.load_loadout("default")
    }

    /// Every rule, by priority, the highest first, and by name among those
    /// of one priority.
    pub fn get_all_agent_rules(&self) -> (r: Vec<AgentRule>)
        ensures
            views(r@) == listed::<AgentRule>(self@.agent_rules, every()),
            is_listing::<AgentRule>(views(r@), self@.agent_rules, every()),
            self@.wf(),
    {
        proof {
            use_type_invariant(self);
        }
        let rows = &self.rows.agent_rules;
        let mut mask: Vec<bool> = Vec::new();
        let mut i: usize = 0;
        while i < rows.len()
            invariant
                i <= rows@.len(),
                mask@.len() == i,
                forall|j: int| 0 <= j < i ==> mask@[j],
            decreases rows@.len() - i,
        {
            mask.push(true);
            i += 1;
        }
        proof {
            let all = views(rows@);
            assert forall|a: int, b: int|
                0 <= a < all.len() && 0 <= b < all.len() && a != b implies AgentRule::before(
                all[a],
                all[b],
            ) || AgentRule::before(all[b], all[a]) by {
                lemma_lex_total(all[a].name, all[b].name);
                if a < b {
                    assert(all[a].name != all[b].name);
                } else {
                    assert(all[b].name != all[a].name);
                }
            }
        }
        listing(rows, &mask, Ghost(every()))
    }

    /// Every prompt, by name.
    pub fn get_all_prompts(&self) -> (r: Vec<Prompt>)
        ensures
            views(r@) == listed::<Prompt>(self@.prompts, every()),
            is_listing::<Prompt>(views(r@), self@.prompts, every()),
            self@.wf(),
    {
        proof {
            use_type_invariant(self);
        }
        let rows = &self.rows.prompts;
        let mut mask: Vec<bool> = Vec::new();
        let mut i: usize = 0;
        while i < rows.len()
            invariant
                i <= rows@.len(),
                mask@.len() == i,
                forall|j: int| 0 <= j < i ==> mask@[j],
            decreases rows@.len() - i,
        {
            mask.push(true);
            i += 1;
        }
        proof {
            let all = views(rows@);
            assert forall|a: int, b: int|
                0 <= a < all.len() && 0 <= b < all.len() && a != b implies Prompt::before(
                all[a],
                all[b],
            ) || Prompt::before(all[b], all[a]) by {
                lemma_lex_total(all[a].name, all[b].name);
                if a < b {
                    assert(all[a].name != all[b].name);
                } else {
                    assert(all[b].name != all[a].name);
                }
            }
        }
        listing(rows, &mask, Ghost(every()))
    }

    /// Stores `rule` as a new rule under the next new number, which is
    /// returned; the number that `rule` carries is not used. It fails where
    /// a rule has its name already.
    pub fn add_agent_rule(&mut self, rule: &AgentRule) -> (r: Result<i64, Error>)
        ensures
            old(self)@.has_rule(rule.name@) ==> r is Err && r->Err_0@ == ErrorView::RuleExists(
                rule.name@,
            ),
            !old(self)@.has_rule(rule.name@) && old(self)@.next_rule_id == i64::MAX ==> r is Err
                && r->Err_0@ == ErrorView::IdsExhausted,
            !old(self)@.has_rule(rule.name@) && old(self)@.next_rule_id < i64::MAX ==> r is Ok
                && r->Ok_0 == old(self)@.next_rule_id && final(self)@ == old(self)@.add_agent_rule(
                rule@,
            ),
            r is Err ==> final(self)@ == old(self)@,
            final(self)@.wf(),
    {
        let mut rows = self.take();
        let i = find_rule(&rows.agent_rules, rule.name.as_str());
        if i < rows.agent_rules.len() {
            *self = Database { rows };
            return Err(Error::RuleExists(rule.name.clone()));
        }
        if rows.next_rule_id == i64::MAX {
            *self = Database { rows };
            return Err(Error::IdsExhausted);
        }
        let id = rows.next_rule_id;
        let mut row = rule.clone();
        row.id = id;
        proof {
            let before = rows@;
            lemma_views_push(rows.agent_rules@, row);
            lemma_first_match_bounds(before.agent_rules, rule_named(rule.name@));
            assert forall|a: int| 0 <= a < before.agent_rules.len() implies (
            #[trigger] before.agent_rules[a]).name != rule.name@ by {
                assert(!rule_named(rule.name@)(before.agent_rules[a]));
            }
            assert(row@ == AgentRuleView { id: id, ..rule@ });
        }
        rows.agent_rules.push(row);
        rows.next_rule_id = id + 1;
        *self = Database { rows };
        Ok(id)
    }

    /// Stores `prompt` as a new prompt under the next new number, which is
    /// returned; the number that `prompt` carries is not used. It fails
    /// where a prompt has its name already.
    pub fn add_prompt(&mut self, prompt: &Prompt) -> (r: Result<i64, Error>)
        ensures
            old(self)@.has_prompt(prompt.name@) ==> r is Err && r->Err_0@
                == ErrorView::PromptExists(prompt.name@),
            !old(self)@.has_prompt(prompt.name@) && old(self)@.next_prompt_id == i64::MAX ==> r is Err
                && r->Err_0@ == ErrorView::IdsExhausted,
            !old(self)@.has_prompt(prompt.name@) && old(self)@.next_prompt_id < i64::MAX ==> r is Ok
                && r->Ok_0 == old(self)@.next_prompt_id && final(self)@ == old(self)@.add_prompt(
                prompt@,
            ),
            r is Err ==> final(self)@ == old(self)@,
            final(self)@.wf(),
    {
        let mut rows = self.take();
        let i = find_prompt(&rows.prompts, prompt.name.as_str());
        if i < rows.prompts.len() {
            *self = Database { rows };
            return Err(Error::PromptExists(prompt.name.clone()));
        }
        if rows.next_prompt_id == i64::MAX {
            *self = Database { rows };
            return Err(Error::IdsExhausted);
        }
        let id = rows.next_prompt_id;
        let mut row = prompt.clone();
        row.id = id;
        proof {
            let before = rows@;
            lemma_views_push(rows.prompts@, row);
            lemma_first_match_bounds(before.prompts, prompt_named(prompt.name@));
            assert forall|a: int| 0 <= a < before.prompts.len() implies (
            #[trigger] before.prompts[a]).name != prompt.name@ by {
                assert(!prompt_named(prompt.name@)(before.prompts[a]));
            }
            assert(row@ == PromptView { id: id, ..prompt@ });
        }
        rows.prompts.push(row);
        rows.next_prompt_id = id + 1;
        *self = Database { rows };
        Ok(id)
    }
}

} // verus!
