//! The store as a mathematical value: its tables as sequences of rows, what
//! makes them a store, and what each operation makes of them.

use vstd::prelude::*;
use crate::error::ErrorView;
use crate::model::{
    AgentRuleView, Commit, CommitView, ContributionView, LoadoutView, PromptView, RepositoryView,
};
use crate::order::listed;
use crate::seed::{seed_prompts, seed_rules};

verus! {

/// The place of the first row of `rows` that `hit` selects, or the length
/// of `rows` where it selects none.
pub open spec fn first_match<T>(rows: Seq<T>, hit: spec_fn(T) -> bool) -> int
    decreases rows.len(),
{
    if rows.len() == 0 || hit(rows[0]) {
        0
    } else {
        1 + first_match(rows.drop_first(), hit)
    }
}

pub proof fn lemma_first_match_bounds<T>(rows: Seq<T>, hit: spec_fn(T) -> bool)
    ensures
        0 <= first_match(rows, hit) <= rows.len(),
        first_match(rows, hit) < rows.len() ==> hit(rows[first_match(rows, hit)]),
        forall|j: int| 0 <= j < first_match(rows, hit) ==> !hit(#[trigger] rows[j]),
    decreases rows.len(),
{
    if rows.len() > 0 && !hit(rows[0]) {
        let tail = rows.drop_first();
        lemma_first_match_bounds(tail, hit);
        assert forall|j: int| 0 <= j < first_match(rows, hit) implies !hit(#[trigger] rows[j]) by {
            if j > 0 {
                assert(rows[j] == tail[j - 1]);
            }
        }
    }
}

/// The first match is the place before which nothing is selected and at
/// which the rows end or a row is selected.
pub proof fn lemma_first_match_is<T>(rows: Seq<T>, hit: spec_fn(T) -> bool, i: int)
    requires
        0 <= i <= rows.len(),
        forall|j: int| 0 <= j < i ==> !hit(#[trigger] rows[j]),
        i < rows.len() ==> hit(rows[i]),
    ensures
        first_match(rows, hit) == i,
{
    lemma_first_match_bounds(rows, hit);
}

/// A row that `hit` selects puts the first match at or before its place.
pub proof fn lemma_first_match_found<T>(rows: Seq<T>, hit: spec_fn(T) -> bool, k: int)
    requires
        0 <= k < rows.len(),
        hit(rows[k]),
    ensures
        first_match(rows, hit) <= k,
{
    lemma_first_match_bounds(rows, hit);
}

/// Whether `x` and `y` are rows of `rows`, `x` at an earlier place than
/// `y`.
pub open spec fn in_order<T>(rows: Seq<T>, x: T, y: T) -> bool {
    exists|a: int, b: int| 0 <= a < b < rows.len() && rows[a] == x && rows[b] == y
}

/// The rows that a filter keeps stand in the order in which they stood:
/// each is a row of `rows` that `keep` selects, and of two of them the
/// first comes from an earlier place.
pub proof fn lemma_filter_order<T>(rows: Seq<T>, keep: spec_fn(T) -> bool)
    ensures
        forall|i: int|
            0 <= i < rows.filter(keep).len() ==> keep(#[trigger] rows.filter(keep)[i])
                && rows.contains(rows.filter(keep)[i]),
        forall|i: int, j: int|
            0 <= i < j < rows.filter(keep).len() ==> in_order(
                rows,
                #[trigger] rows.filter(keep)[i],
                #[trigger] rows.filter(keep)[j],
            ),
    decreases rows.len(),
{
    let kept = rows.filter(keep);
    if rows.len() == 0 {
        rows.lemma_filter_len(keep);
    } else {
        let rest = rows.drop_last();
        let last = rows.last();
        let head = rest.filter(keep);
        assert(rows =~= rest.push(last));
        rest.lemma_filter_push(last, keep);
        lemma_filter_order(rest, keep);
        rest.lemma_filter_len(keep);
        assert forall|i: int| 0 <= i < kept.len() implies keep(#[trigger] kept[i])
            && rows.contains(kept[i]) by {
            if i < head.len() {
                assert(kept[i] == head[i]);
                assert(rest.contains(head[i]));
                let a = choose|a: int| 0 <= a < rest.len() && rest[a] == head[i];
                assert(rows[a] == kept[i]);
            } else {
                assert(rows[rows.len() - 1] == kept[i]);
            }
        }
        assert forall|i: int, j: int| 0 <= i < j < kept.len() implies in_order(
            rows,
            #[trigger] kept[i],
            #[trigger] kept[j],
        ) by {
            if j < head.len() {
                assert(kept[i] == head[i] && kept[j] == head[j]);
                assert(in_order(rest, head[i], head[j]));
                let (a, b) = choose|a: int, b: int|
                    0 <= a < b < rest.len() && rest[a] == head[i] && rest[b] == head[j];
                assert(0 <= a < b < rows.len() && rows[a] == kept[i] && rows[b] == kept[j]);
            } else {
                assert(kept[i] == head[i]);
                assert(rest.contains(head[i]));
                let a = choose|a: int| 0 <= a < rest.len() && rest[a] == head[i];
                let b = rows.len() - 1;
                assert(0 <= a < b < rows.len() && rows[a] == kept[i] && rows[b] == kept[j]);
            }
        }
    }
}

/// `rows` with `row` in the place of the first row that `hit` selects, or
/// at the end where it selects none.
pub open spec fn put<T>(rows: Seq<T>, hit: spec_fn(T) -> bool, row: T) -> Seq<T> {
    let i = first_match(rows, hit);
    if i < rows.len() {
        rows.update(i, row)
    } else {
        rows.push(row)
    }
}

/// Selects the repository with the URL `url`.
pub open spec fn with_url(url: Seq<char>) -> spec_fn(RepositoryView) -> bool {
    |r: RepositoryView| r.url == url
}

/// Selects the contribution named `name` of the repository `url`.
pub open spec fn with_key(url: Seq<char>, name: Seq<char>) -> spec_fn(ContributionView) -> bool {
    |c: ContributionView| c.repository_url == url && c.name == name
}

/// Selects the contributions of the repository `url`.
pub open spec fn of_repository(url: Seq<char>) -> spec_fn(ContributionView) -> bool {
    |c: ContributionView| c.repository_url == url
}

/// Selects the commit with the hash `hash`.
pub open spec fn with_hash(hash: Seq<char>) -> spec_fn(CommitView) -> bool {
    |c: CommitView| c.hash == hash
}

/// Selects the commits that belong to the contribution numbered `id`.
pub open spec fn of_contribution(id: i64) -> spec_fn(CommitView) -> bool {
    |c: CommitView| c.contribution_id == Some(id)
}

/// Selects the loadout named `name`.
pub open spec fn loadout_named(name: Seq<char>) -> spec_fn(LoadoutView) -> bool {
    |l: LoadoutView| l.name == name
}

/// Selects the rule named `name`.
pub open spec fn rule_named(name: Seq<char>) -> spec_fn(AgentRuleView) -> bool {
    |r: AgentRuleView| r.name == name
}

/// Selects the prompt named `name`.
pub open spec fn prompt_named(name: Seq<char>) -> spec_fn(PromptView) -> bool {
    |p: PromptView| p.name == name
}

/// Selects the prompts whose numbers are among `ids`.
pub open spec fn prompt_among(ids: Seq<i64>) -> spec_fn(PromptView) -> bool {
    |p: PromptView| ids.contains(p.id)
}

/// Selects the rules whose numbers are among `ids`.
pub open spec fn rule_among(ids: Seq<i64>) -> spec_fn(AgentRuleView) -> bool {
    |r: AgentRuleView| ids.contains(r.id)
}

/// Selects every row.
pub open spec fn every<T>() -> spec_fn(T) -> bool {
    |row: T| true
}

/// The numbers of `prompts`, in order.
pub open spec fn prompt_ids(prompts: Seq<PromptView>) -> Seq<i64> {
    Seq::new(prompts.len(), |i: int| prompts[i].id)
}

/// The numbers of `rules`, in order.
pub open spec fn rule_ids(rules: Seq<AgentRuleView>) -> Seq<i64> {
    Seq::new(rules.len(), |i: int| rules[i].id)
}

/// No two repositories share a URL.
pub open spec fn repositories_wf(rows: Seq<RepositoryView>) -> bool {
    forall|i: int, j: int|
        0 <= i < j < rows.len() ==> (#[trigger] rows[i]).url != (#[trigger] rows[j]).url
}

/// Every stored contribution has a number, below `next`; no two share a
/// number, and no two of one repository share a name.
pub open spec fn contributions_wf(rows: Seq<ContributionView>, next: i64) -> bool {
    &&& forall|i: int|
        0 <= i < rows.len() ==> (#[trigger] rows[i]).id is Some && 1 <= rows[i].id->0 < next
    &&& forall|i: int, j: int|
        0 <= i < j < rows.len() ==> (#[trigger] rows[i]).id != (#[trigger] rows[j]).id
    &&& forall|i: int, j: int|
        0 <= i < j < rows.len() ==> !((#[trigger] rows[i]).repository_url == (
        #[trigger] rows[j]).repository_url && rows[i].name == rows[j].name)
}

/// No two commits share a hash.
pub open spec fn commits_wf(rows: Seq<CommitView>) -> bool {
    forall|i: int, j: int|
        0 <= i < j < rows.len() ==> (#[trigger] rows[i]).hash != (#[trigger] rows[j]).hash
}

/// Every rule has a number below `next`; no two share a number or a name.
pub open spec fn rules_wf(rows: Seq<AgentRuleView>, next: i64) -> bool {
    &&& forall|i: int| 0 <= i < rows.len() ==> 1 <= (#[trigger] rows[i]).id < next
    &&& forall|i: int, j: int|
        0 <= i < j < rows.len() ==> (#[trigger] rows[i]).id != (#[trigger] rows[j]).id
    &&& forall|i: int, j: int|
        0 <= i < j < rows.len() ==> (#[trigger] rows[i]).name != (#[trigger] rows[j]).name
}

/// Every prompt has a number below `next`; no two share a number or a
/// name.
pub open spec fn prompts_wf(rows: Seq<PromptView>, next: i64) -> bool {
    &&& forall|i: int| 0 <= i < rows.len() ==> 1 <= (#[trigger] rows[i]).id < next
    &&& forall|i: int, j: int|
        0 <= i < j < rows.len() ==> (#[trigger] rows[i]).id != (#[trigger] rows[j]).id
    &&& forall|i: int, j: int|
        0 <= i < j < rows.len() ==> (#[trigger] rows[i]).name != (#[trigger] rows[j]).name
}

/// Every loadout has a number below `next`; no two share a number or a
/// name, and at most one is the default.
pub open spec fn loadouts_wf(rows: Seq<LoadoutView>, next: i64) -> bool {
    &&& forall|i: int| 0 <= i < rows.len() ==> 1 <= (#[trigger] rows[i]).id < next
    &&& forall|i: int, j: int|
        0 <= i < j < rows.len() ==> (#[trigger] rows[i]).id != (#[trigger] rows[j]).id
    &&& forall|i: int, j: int|
        0 <= i < j < rows.len() ==> (#[trigger] rows[i]).name != (#[trigger] rows[j]).name
    &&& forall|i: int, j: int|
        0 <= i < j < rows.len() ==> !((#[trigger] rows[i]).is_default && (
        #[trigger] rows[j]).is_default)
}

/// The name of the default loadout of a new store.
pub open spec fn default_name() -> Seq<char> {
    "default"@
}

/// Selects the default loadout.
pub open spec fn is_default() -> spec_fn(LoadoutView) -> bool {
    |l: LoadoutView| l.is_default
}

/// The tables of the store, and the number that each table gives to its
/// next new row.
pub struct DatabaseView {
    pub repositories: Seq<RepositoryView>,
    pub contributions: Seq<ContributionView>,
    pub commits: Seq<CommitView>,
    pub agent_rules: Seq<AgentRuleView>,
    pub prompts: Seq<PromptView>,
    pub loadouts: Seq<LoadoutView>,
    pub next_contribution_id: i64,
    pub next_rule_id: i64,
    pub next_prompt_id: i64,
    pub next_loadout_id: i64,
}

impl DatabaseView {
    /// Whether the tables keep their keys: what holds of rows before the
    /// store is initialized, and ever after.
    pub open spec fn rows_wf(self) -> bool {
        &&& repositories_wf(self.repositories)
        &&& contributions_wf(self.contributions, self.next_contribution_id)
        &&& commits_wf(self.commits)
        &&& rules_wf(self.agent_rules, self.next_rule_id)
        &&& prompts_wf(self.prompts, self.next_prompt_id)
        &&& loadouts_wf(self.loadouts, self.next_loadout_id)
        &&& 1 <= self.next_contribution_id
        &&& 1 <= self.next_rule_id
        &&& 1 <= self.next_prompt_id
        &&& 1 <= self.next_loadout_id
    }

    /// Whether a loadout is the default one.
    pub open spec fn has_default(self) -> bool {
        first_match(self.loadouts, is_default()) < self.loadouts.len()
    }

    /// Whether these tables are a store: they keep their keys, and exactly
    /// one loadout is the default.
    pub open spec fn wf(self) -> bool {
        self.rows_wf() && self.has_default()
    }

    /// The store with `r` in the place of the repository of its URL, or
    /// as a new row where the URL is new.
    pub open spec fn put_repository(self, r: RepositoryView) -> DatabaseView {
        DatabaseView { repositories: put(self.repositories, with_url(r.url), r), ..self }
    }

    /// The place of the contribution named `name` of the repository `url`.
    pub open spec fn contribution_at(self, url: Seq<char>, name: Seq<char>) -> int {
        first_match(self.contributions, with_key(url, name))
    }

    /// Whether the repository `url` has a contribution named `name`.
    pub open spec fn has_contribution(self, url: Seq<char>, name: Seq<char>) -> bool {
        self.contribution_at(url, name) < self.contributions.len()
    }

    /// The number under which `c` is stored: that of the row with its key,
    /// or the next new number where the key is new.
    pub open spec fn contribution_id(self, c: ContributionView) -> i64 {
        if self.has_contribution(c.repository_url, c.name) {
            self.contributions[self.contribution_at(c.repository_url, c.name)].id->0
        } else {
            self.next_contribution_id
        }
    }

    /// Whether `c` can be stored: its key is known, or a number is left
    /// for it.
    pub open spec fn can_put_contribution(self, c: ContributionView) -> bool {
        self.has_contribution(c.repository_url, c.name) || self.next_contribution_id < i64::MAX
    }

    /// The store with `c`, under its number, in the place of the
    /// contribution of its key, or as a new row where the key is new.
    pub open spec fn put_contribution(self, c: ContributionView) -> DatabaseView {
        let row = ContributionView { id: Some(self.contribution_id(c)), ..c };
        DatabaseView {
            contributions: put(self.contributions, with_key(c.repository_url, c.name), row),
            next_contribution_id: if self.has_contribution(c.repository_url, c.name) {
                self.next_contribution_id
            } else {
                (self.next_contribution_id + 1) as i64
            },
            ..self
        }
    }

    /// The store with `c` in the place of the commit of its hash, or as a
    /// new row where the hash is new.
    pub open spec fn put_commit(self, c: CommitView) -> DatabaseView {
        DatabaseView { commits: put(self.commits, with_hash(c.hash), c), ..self }
    }

    /// The commits that belong to the contribution named `name` of the
    /// repository `url`, the latest first; none where there is no such
    /// contribution.
    pub open spec fn commits_of(self, url: Seq<char>, name: Seq<char>) -> Seq<CommitView> {
        if self.has_contribution(url, name) {
            listed::<Commit>(
                self.commits,
                of_contribution(self.contributions[self.contribution_at(url, name)].id->0),
            )
        } else {
            Seq::empty()
        }
    }

    /// The place of the loadout named `name`.
    pub open spec fn loadout_at(self, name: Seq<char>) -> int {
        first_match(self.loadouts, loadout_named(name))
    }

    /// Whether a loadout is named `name`.
    pub open spec fn has_loadout(self, name: Seq<char>) -> bool {
        self.loadout_at(name) < self.loadouts.len()
    }

    /// The store with a new loadout named `name`, which is not the default
    /// and holds nothing.
    pub open spec fn create_loadout(self, name: Seq<char>) -> DatabaseView {
        DatabaseView {
            loadouts: self.loadouts.push(
                LoadoutView {
                    id: self.next_loadout_id,
                    name: name,
                    is_default: false,
                    prompt_ids: Seq::empty(),
                    rule_ids: Seq::empty(),
                },
            ),
            next_loadout_id: (self.next_loadout_id + 1) as i64,
            ..self
        }
    }

    /// The store without the loadout named `name`.
    pub open spec fn delete_loadout(self, name: Seq<char>) -> DatabaseView {
        DatabaseView { loadouts: self.loadouts.remove(self.loadout_at(name)), ..self }
    }

    /// The store in which the loadout named `name` holds every prompt and
    /// every rule that is stored, and nothing else.
    pub open spec fn save_current_to_loadout(self, name: Seq<char>) -> DatabaseView {
        let i = self.loadout_at(name);
        DatabaseView {
            loadouts: self.loadouts.update(
                i,
                LoadoutView {
                    prompt_ids: prompt_ids(self.prompts),
                    rule_ids: rule_ids(self.agent_rules),
                    ..self.loadouts[i]
                },
            ),
            ..self
        }
    }

    /// The store with only the prompts and the rules that the loadout
    /// named `name` holds.
    pub open spec fn load_loadout(self, name: Seq<char>) -> DatabaseView {
        let loadout = self.loadouts[self.loadout_at(name)];
        DatabaseView {
            prompts: self.prompts.filter(prompt_among(loadout.prompt_ids)),
            agent_rules: self.agent_rules.filter(rule_among(loadout.rule_ids)),
            ..self
        }
    }

    /// The store with the seed rules, where it holds no rule.
    pub open spec fn with_seed_rules(self) -> DatabaseView {
        if self.agent_rules.len() > 0 {
            self
        } else {
            DatabaseView {
                agent_rules: seed_rules(self.next_rule_id),
                next_rule_id: (self.next_rule_id + 3) as i64,
                ..self
            }
        }
    }

    /// Whether the seed rules can be numbered, where they are needed.
    pub open spec fn can_seed_rules(self) -> bool {
        self.agent_rules.len() > 0 || self.next_rule_id <= i64::MAX - 3
    }

    /// The store with the seed prompts, where it holds no prompt.
    pub open spec fn with_seed_prompts(self) -> DatabaseView {
        if self.prompts.len() > 0 {
            self
        } else {
            DatabaseView {
                prompts: seed_prompts(self.next_prompt_id),
                next_prompt_id: (self.next_prompt_id + 2) as i64,
                ..self
            }
        }
    }

    /// Whether the seed prompts can be numbered, where they are needed.
    pub open spec fn can_seed_prompts(self) -> bool {
        self.prompts.len() > 0 || self.next_prompt_id <= i64::MAX - 2
    }

    /// The store with a default loadout, where it has none: a loadout
    /// named `default` that holds every prompt and every rule that is
    /// stored.
    pub open spec fn with_default_loadout(self) -> DatabaseView {
        if self.has_default() {
            self
        } else {
            DatabaseView {
                loadouts: self.loadouts.push(
                    LoadoutView {
                        id: self.next_loadout_id,
                        name: default_name(),
                        is_default: true,
                        prompt_ids: prompt_ids(self.prompts),
                        rule_ids: rule_ids(self.agent_rules),
                    },
                ),
                next_loadout_id: (self.next_loadout_id + 1) as i64,
                ..self
            }
        }
    }

    /// Why no default loadout can be made, where one is needed: its name
    /// is taken, or no number is left.
    pub open spec fn default_loadout_error(self) -> Option<ErrorView> {
        if self.has_default() {
            None
        } else if self.has_loadout(default_name()) {
            Some(ErrorView::LoadoutExists(default_name()))
        } else if self.next_loadout_id == i64::MAX {
            Some(ErrorView::IdsExhausted)
        } else {
            None
        }
    }

    /// What opening a store over these rows gives: the rows with the seed
    /// rules, the seed prompts and the default loadout where they were
    /// missing, or the reason for which they are refused.
    pub open spec fn initialize(self) -> Result<DatabaseView, ErrorView> {
        if !self.rows_wf() {
            Err(ErrorView::InvalidSnapshot)
        } else if !self.can_seed_rules() {
            Err(ErrorView::IdsExhausted)
        } else if !self.with_seed_rules().can_seed_prompts() {
            Err(ErrorView::IdsExhausted)
        } else {
            let seeded = self.with_seed_rules().with_seed_prompts();
            match seeded.default_loadout_error() {
                Some(e) => Err(e),
                None => Ok(seeded.with_default_loadout()),
            }
        }
    }

    /// Whether a rule is named `name`.
    pub open spec fn has_rule(self, name: Seq<char>) -> bool {
        first_match(self.agent_rules, rule_named(name)) < self.agent_rules.len()
    }

    /// Whether a prompt is named `name`.
    pub open spec fn has_prompt(self, name: Seq<char>) -> bool {
        first_match(self.prompts, prompt_named(name)) < self.prompts.len()
    }

    /// The store with `rule` as a new row under the next new number.
    pub open spec fn add_agent_rule(self, rule: AgentRuleView) -> DatabaseView {
        DatabaseView {
            agent_rules: self.agent_rules.push(AgentRuleView { id: self.next_rule_id, ..rule }),
            next_rule_id: (self.next_rule_id + 1) as i64,
            ..self
        }
    }

    /// The store with `prompt` as a new row under the next new number.
    pub open spec fn add_prompt(self, prompt: PromptView) -> DatabaseView {
        DatabaseView {
            prompts: self.prompts.push(PromptView { id: self.next_prompt_id, ..prompt }),
            next_prompt_id: (self.next_prompt_id + 1) as i64,
            ..self
        }
    }
}

} // verus!
