//! The order in which each kind of record is listed.

use vstd::prelude::*;
use crate::model::{
    AgentRule, AgentRuleView, Commit, CommitView, Contribution, ContributionView, Loadout,
    LoadoutView, Prompt, PromptView, Repository, RepositoryView,
};
use crate::order::Record;
use crate::text::{
    lemma_lex_asymmetric, lemma_lex_irreflexive, lemma_lex_negatively_transitive, lex_lt, text_lt,
};

verus! {

/// Repositories are listed by name, those of one name by URL.
impl Record for Repository {
    open spec fn before(a: RepositoryView, b: RepositoryView) -> bool {
        lex_lt(a.name, b.name) || (a.name == b.name && lex_lt(a.url, b.url))
    }

    proof fn lemma_asymmetric(a: RepositoryView, b: RepositoryView) {
        lemma_lex_asymmetric(a.name, b.name);
        lemma_lex_asymmetric(a.url, b.url);
        lemma_lex_irreflexive(a.name);
    }

    proof fn lemma_negatively_transitive(a: RepositoryView, b: RepositoryView, c: RepositoryView) {
        lemma_lex_negatively_transitive(a.name, b.name, c.name);
        lemma_lex_negatively_transitive(a.url, b.url, c.url);
        lemma_lex_irreflexive(a.name);
        lemma_lex_irreflexive(b.name);
        crate::text::lemma_lex_total(a.name, b.name);
        crate::text::lemma_lex_total(b.name, c.name);
        crate::text::lemma_lex_total(a.name, c.name);
        lemma_lex_asymmetric(a.name, c.name);
        lemma_lex_asymmetric(a.name, b.name);
        lemma_lex_asymmetric(b.name, c.name);
    }

    fn comes_before(&self, other: &Self) -> (r: bool) {
        text_lt(self.name.as_str(), other.name.as_str()) || (self.name.as_str().eq(
            other.name.as_str(),
        ) && text_lt(self.url.as_str(), other.url.as_str()))
    }

    fn duplicate(&self) -> (r: Self) {
        self.clone()
    }

    open spec fn same_key(a: RepositoryView, b: RepositoryView) -> bool {
        a.url == b.url
    }

    fn has_key_of(&self, other: &Self) -> (r: bool) {
        self.url.as_str().eq(other.url.as_str())
    }

    open spec fn number(a: RepositoryView) -> Option<i64> {
        None
    }

    fn row_number(&self) -> (r: Option<i64>) {
        None
    }
}

/// Contributions are listed by priority, the highest first, those of one
/// priority by name.
impl Record for Contribution {
    open spec fn before(a: ContributionView, b: ContributionView) -> bool {
        a.priority > b.priority || (a.priority == b.priority && lex_lt(a.name, b.name))
    }

    proof fn lemma_asymmetric(a: ContributionView, b: ContributionView) {
        lemma_lex_asymmetric(a.name, b.name);
    }

    proof fn lemma_negatively_transitive(
        a: ContributionView,
        b: ContributionView,
        c: ContributionView,
    ) {
        lemma_lex_negatively_transitive(a.name, b.name, c.name);
    }

    fn comes_before(&self, other: &Self) -> (r: bool) {
        self.priority > other.priority || (self.priority == other.priority && text_lt(
            self.name.as_str(),
            other.name.as_str(),
        ))
    }

    fn duplicate(&self) -> (r: Self) {
        self.clone()
    }

    open spec fn same_key(a: ContributionView, b: ContributionView) -> bool {
        a.repository_url == b.repository_url && a.name == b.name
    }

    fn has_key_of(&self, other: &Self) -> (r: bool) {
        self.repository_url.as_str().eq(other.repository_url.as_str()) && self.name.as_str().eq(
            other.name.as_str(),
        )
    }

    open spec fn number(a: ContributionView) -> Option<i64> {
        a.id
    }

    fn row_number(&self) -> (r: Option<i64>) {
        self.id
    }
}

/// Commits are listed by date, the latest first, those of one date by
/// hash.
impl Record for Commit {
    open spec fn before(a: CommitView, b: CommitView) -> bool {
        lex_lt(b.date, a.date) || (a.date == b.date && lex_lt(a.hash, b.hash))
    }

    proof fn lemma_asymmetric(a: CommitView, b: CommitView) {
        lemma_lex_asymmetric(a.date, b.date);
        lemma_lex_asymmetric(a.hash, b.hash);
        lemma_lex_irreflexive(a.date);
    }

    proof fn lemma_negatively_transitive(a: CommitView, b: CommitView, c: CommitView) {
        lemma_lex_negatively_transitive(c.date, b.date, a.date);
        lemma_lex_negatively_transitive(a.hash, b.hash, c.hash);
        lemma_lex_irreflexive(a.date);
        lemma_lex_irreflexive(b.date);
        crate::text::lemma_lex_total(a.date, b.date);
        crate::text::lemma_lex_total(b.date, c.date);
        crate::text::lemma_lex_total(a.date, c.date);
        lemma_lex_asymmetric(a.date, c.date);
        lemma_lex_asymmetric(a.date, b.date);
        lemma_lex_asymmetric(b.date, c.date);
    }

    fn comes_before(&self, other: &Self) -> (r: bool) {
        text_lt(other.date.as_str(), self.date.as_str()) || (self.date.as_str().eq(
            other.date.as_str(),
        ) && text_lt(self.hash.as_str(), other.hash.as_str()))
    }

    fn duplicate(&self) -> (r: Self) {
        self.clone()
    }

    open spec fn same_key(a: CommitView, b: CommitView) -> bool {
        a.hash == b.hash
    }

    fn has_key_of(&self, other: &Self) -> (r: bool) {
        self.hash.as_str().eq(other.hash.as_str())
    }

    open spec fn number(a: CommitView) -> Option<i64> {
        None
    }

    fn row_number(&self) -> (r: Option<i64>) {
        None
    }
}

/// Rules are listed by priority, the highest first, those of one priority
/// by name.
impl Record for AgentRule {
    open spec fn before(a: AgentRuleView, b: AgentRuleView) -> bool {
        a.priority > b.priority || (a.priority == b.priority && lex_lt(a.name, b.name))
    }

    proof fn lemma_asymmetric(a: AgentRuleView, b: AgentRuleView) {
        lemma_lex_asymmetric(a.name, b.name);
    }

    proof fn lemma_negatively_transitive(a: AgentRuleView, b: AgentRuleView, c: AgentRuleView) {
        lemma_lex_negatively_transitive(a.name, b.name, c.name);
    }

    fn comes_before(&self, other: &Self) -> (r: bool) {
        self.priority > other.priority || (self.priority == other.priority && text_lt(
            self.name.as_str(),
            other.name.as_str(),
        ))
    }

    fn duplicate(&self) -> (r: Self) {
        self.clone()
    }

    open spec fn same_key(a: AgentRuleView, b: AgentRuleView) -> bool {
        a.name == b.name
    }

    fn has_key_of(&self, other: &Self) -> (r: bool) {
        self.name.as_str().eq(other.name.as_str())
    }

    open spec fn number(a: AgentRuleView) -> Option<i64> {
        Some(a.id)
    }

    fn row_number(&self) -> (r: Option<i64>) {
        Some(self.id)
    }
}

/// Prompts are listed by name.
impl Record for Prompt {
    open spec fn before(a: PromptView, b: PromptView) -> bool {
        lex_lt(a.name, b.name)
    }

    proof fn lemma_asymmetric(a: PromptView, b: PromptView) {
        lemma_lex_asymmetric(a.name, b.name);
    }

    proof fn lemma_negatively_transitive(a: PromptView, b: PromptView, c: PromptView) {
        lemma_lex_negatively_transitive(a.name, b.name, c.name);
    }

    fn comes_before(&self, other: &Self) -> (r: bool) {
        text_lt(self.name.as_str(), other.name.as_str())
    }

    fn duplicate(&self) -> (r: Self) {
        self.clone()
    }

    open spec fn same_key(a: PromptView, b: PromptView) -> bool {
        a.name == b.name
    }

    fn has_key_of(&self, other: &Self) -> (r: bool) {
        self.name.as_str().eq(other.name.as_str())
    }

    open spec fn number(a: PromptView) -> Option<i64> {
        Some(a.id)
    }

    fn row_number(&self) -> (r: Option<i64>) {
        Some(self.id)
    }
}

/// Loadouts are listed with the default one first, the others by name.
impl Record for Loadout {
    open spec fn before(a: LoadoutView, b: LoadoutView) -> bool {
        (a.is_default && !b.is_default) || (a.is_default == b.is_default && lex_lt(a.name, b.name))
    }

    proof fn lemma_asymmetric(a: LoadoutView, b: LoadoutView) {
        lemma_lex_asymmetric(a.name, b.name);
    }

    proof fn lemma_negatively_transitive(a: LoadoutView, b: LoadoutView, c: LoadoutView) {
        lemma_lex_negatively_transitive(a.name, b.name, c.name);
    }

    fn comes_before(&self, other: &Self) -> (r: bool) {
        (self.is_default && !other.is_default) || (self.is_default == other.is_default && text_lt(
            self.name.as_str(),
            other.name.as_str(),
        ))
    }

    fn duplicate(&self) -> (r: Self) {
        self.clone()
    }

    open spec fn same_key(a: LoadoutView, b: LoadoutView) -> bool {
        a.name == b.name
    }

    fn has_key_of(&self, other: &Self) -> (r: bool) {
        self.name.as_str().eq(other.name.as_str())
    }

    open spec fn number(a: LoadoutView) -> Option<i64> {
        Some(a.id)
    }

    fn row_number(&self) -> (r: Option<i64>) {
        Some(self.id)
    }
}

} // verus!
