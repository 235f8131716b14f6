//! The records that the store keeps, each with its view: the same record
//! with every string as a `Seq<char>`.

use vstd::prelude::*;
use crate::text::{opt_text, texts};

verus! {

/// The views of a sequence of records.
pub open spec fn views<T: View>(rows: Seq<T>) -> Seq<T::V> {
    Seq::new(rows.len(), |i: int| rows[i]@)
}

pub proof fn lemma_views_push<T: View>(rows: Seq<T>, row: T)
    ensures
        views(rows.push(row)) == views(rows).push(row@),
{
    assert(views(rows.push(row)) =~= views(rows).push(row@));
}

pub proof fn lemma_views_update<T: View>(rows: Seq<T>, i: int, row: T)
    requires
        0 <= i < rows.len(),
    ensures
        views(rows.update(i, row)) == views(rows).update(i, row@),
{
    assert(views(rows.update(i, row)) =~= views(rows).update(i, row@));
}

pub proof fn lemma_views_insert<T: View>(rows: Seq<T>, i: int, row: T)
    requires
        0 <= i <= rows.len(),
    ensures
        views(rows.insert(i, row)) == views(rows).insert(i, row@),
{
    assert(views(rows.insert(i, row)) =~= views(rows).insert(i, row@));
}

/// A copy of an optional string.
pub fn clone_opt(value: &Option<String>) -> (r: Option<String>)
    ensures
        r == *value,
{
    match value {
        Some(s) => Some(s.clone()),
        None => None,
    }
}

/// A copy of a list of strings.
pub fn clone_texts(items: &Vec<String>) -> (r: Vec<String>)
    ensures
        r@ == items@,
{
    let mut out: Vec<String> = Vec::new();
    let mut i: usize = 0;
    while i < items.len()
        invariant
            i <= items@.len(),
            out@ == items@.take(i as int),
        decreases items@.len() - i,
    {
        out.push(items[i].clone());
        assert(out@ =~= items@.take(i + 1));
        i += 1;
    }
    assert(items@.take(items@.len() as int) =~= items@);
    out
}

/// A source repository, identified by its URL.
#[derive(Debug)]
pub struct Repository {
    pub url: String,
    pub organization: String,
    pub name: String,
    pub description: Option<String>,
}

/// The view of [`Repository`]: the same, with every string as a `Seq<char>`.
pub struct RepositoryView {
    pub url: Seq<char>,
    pub organization: Seq<char>,
    pub name: Seq<char>,
    pub description: Option<Seq<char>>,
}

impl View for Repository {
    type V = RepositoryView;

    open spec fn view(&self) -> RepositoryView {
        RepositoryView {
            url: self.url@,
            organization: self.organization@,
            name: self.name@,
            description: opt_text(self.description),
        }
    }
}

impl Clone for Repository {
    fn clone(&self) -> (r: Self)
        ensures
            r == *self,
    {
        Repository {
            url: self.url.clone(),
            organization: self.organization.clone(),
            name: self.name.clone(),
            description: clone_opt(&self.description),
        }
    }
}

/// The value of one technical detail of a contribution. A nested mapping
/// or sequence is kept as its encoded text.
#[derive(Debug)]
pub enum DetailValue {
    Null,
    Flag(bool),
    Number(i64),
    Text(String),
    Structured(String),
}

/// The view of [`DetailValue`]: the same, with every string as a `Seq<char>`.
pub enum DetailValueView {
    Null,
    Flag(bool),
    Number(i64),
    Text(Seq<char>),
    Structured(Seq<char>),
}

impl View for DetailValue {
    type V = DetailValueView;

    open spec fn view(&self) -> DetailValueView {
        match self {
            DetailValue::Null => DetailValueView::Null,
            DetailValue::Flag(b) => DetailValueView::Flag(*b),
            DetailValue::Number(n) => DetailValueView::Number(*n),
            DetailValue::Text(s) => DetailValueView::Text(s@),
            DetailValue::Structured(s) => DetailValueView::Structured(s@),
        }
    }
}

impl Clone for DetailValue {
    fn clone(&self) -> (r: Self)
        ensures
            r == *self,
    {
        match self {
            DetailValue::Null => DetailValue::Null,
            DetailValue::Flag(b) => DetailValue::Flag(*b),
            DetailValue::Number(n) => DetailValue::Number(*n),
            DetailValue::Text(s) => DetailValue::Text(s.clone()),
            DetailValue::Structured(s) => DetailValue::Structured(s.clone()),
        }
    }
}

/// One entry of the technical details of a contribution.
#[derive(Debug)]
pub struct TechnicalDetail {
    pub key: String,
    pub value: DetailValue,
}

/// The view of [`TechnicalDetail`]: the same, with every string as a `Seq<char>`.
pub struct TechnicalDetailView {
    pub key: Seq<char>,
    pub value: DetailValueView,
}

impl View for TechnicalDetail {
    type V = TechnicalDetailView;

    open spec fn view(&self) -> TechnicalDetailView {
        TechnicalDetailView { key: self.key@, value: self.value@ }
    }
}

impl Clone for TechnicalDetail {
    fn clone(&self) -> (r: Self)
        ensures
            r == *self,
    {
        TechnicalDetail { key: self.key.clone(), value: self.value.clone() }
    }
}

/// A copy of a list of technical details.
pub fn clone_details(items: &Vec<TechnicalDetail>) -> (r: Vec<TechnicalDetail>)
    ensures
        r@ == items@,
{
    let mut out: Vec<TechnicalDetail> = Vec::new();
    let mut i: usize = 0;
    while i < items.len()
        invariant
            i <= items@.len(),
            out@ == items@.take(i as int),
        decreases items@.len() - i,
    {
        out.push(items[i].clone());
        assert(out@ =~= items@.take(i + 1));
        i += 1;
    }
    assert(items@.take(items@.len() as int) =~= items@);
    out
}

/// A documented unit of work in one repository, identified by the
/// repository's URL and its own name. `id` is the number that the store gave
/// it, absent until it has been stored.
#[derive(Debug)]
pub struct Contribution {
    pub id: Option<i64>,
    pub repository_url: String,
    pub name: String,
    pub overview: String,
    pub description: String,
    pub key_commits: Vec<String>,
    pub related_commits: Vec<String>,
    pub technical_details: Vec<TechnicalDetail>,
    pub resume_bullets: Vec<String>,
    pub category: String,
    pub priority: u8,
}

/// The view of [`Contribution`]: the same, with every string as a `Seq<char>`.
pub struct ContributionView {
    pub id: Option<i64>,
    pub repository_url: Seq<char>,
    pub name: Seq<char>,
    pub overview: Seq<char>,
    pub description: Seq<char>,
    pub key_commits: Seq<Seq<char>>,
    pub related_commits: Seq<Seq<char>>,
    pub technical_details: Seq<TechnicalDetailView>,
    pub resume_bullets: Seq<Seq<char>>,
    pub category: Seq<char>,
    pub priority: u8,
}

impl View for Contribution {
    type V = ContributionView;

    open spec fn view(&self) -> ContributionView {
        ContributionView {
            id: self.id,
            repository_url: self.repository_url@,
            name: self.name@,
            overview: self.overview@,
            description: self.description@,
            key_commits: texts(self.key_commits@),
            related_commits: texts(self.related_commits@),
            technical_details: views(self.technical_details@),
            resume_bullets: texts(self.resume_bullets@),
            category: self.category@,
            priority: self.priority,
        }
    }
}

impl Clone for Contribution {
    fn clone(&self) -> (r: Self)
        ensures
            r@ == self@,
            r.key_commits@ == self.key_commits@,
            r.related_commits@ == self.related_commits@,
    {
        Contribution {
            id: self.id,
            repository_url: self.repository_url.clone(),
            name: self.name.clone(),
            overview: self.overview.clone(),
            description: self.description.clone(),
            key_commits: clone_texts(&self.key_commits),
            related_commits: clone_texts(&self.related_commits),
            technical_details: clone_details(&self.technical_details),
            resume_bullets: clone_texts(&self.resume_bullets),
            category: self.category.clone(),
            priority: self.priority,
        }
    }
}

/// A commit of a repository's history, identified by its full hash.
#[derive(Debug)]
pub struct Commit {
    pub hash: String,
    pub repository_url: String,
    pub contribution_id: Option<i64>,
    pub author: String,
    pub author_email: String,
    pub date: String,
    pub message: String,
    pub files_changed: Vec<String>,
    pub lines_added: Option<i32>,
    pub lines_deleted: Option<i32>,
}

/// The view of [`Commit`]: the same, with every string as a `Seq<char>`.
pub struct CommitView {
    pub hash: Seq<char>,
    pub repository_url: Seq<char>,
    pub contribution_id: Option<i64>,
    pub author: Seq<char>,
    pub author_email: Seq<char>,
    pub date: Seq<char>,
    pub message: Seq<char>,
    pub files_changed: Seq<Seq<char>>,
    pub lines_added: Option<i32>,
    pub lines_deleted: Option<i32>,
}

impl View for Commit {
    type V = CommitView;

    open spec fn view(&self) -> CommitView {
        CommitView {
            hash: self.hash@,
            repository_url: self.repository_url@,
            contribution_id: self.contribution_id,
            author: self.author@,
            author_email: self.author_email@,
            date: self.date@,
            message: self.message@,
            files_changed: texts(self.files_changed@),
            lines_added: self.lines_added,
            lines_deleted: self.lines_deleted,
        }
    }
}

impl Clone for Commit {
    fn clone(&self) -> (r: Self)
        ensures
            r@ == self@,
    {
        Commit {
            hash: self.hash.clone(),
            repository_url: self.repository_url.clone(),
            contribution_id: self.contribution_id,
            author: self.author.clone(),
            author_email: self.author_email.clone(),
            date: self.date.clone(),
            message: self.message.clone(),
            files_changed: clone_texts(&self.files_changed),
            lines_added: self.lines_added,
            lines_deleted: self.lines_deleted,
        }
    }
}

/// A rule for agents that work with the store, identified by its name.
#[derive(Debug)]
pub struct AgentRule {
    pub id: i64,
    pub name: String,
    pub instruction: String,
    pub priority: i32,
    pub category: Option<String>,
}

/// The view of [`AgentRule`]: the same, with every string as a `Seq<char>`.
pub struct AgentRuleView {
    pub id: i64,
    pub name: Seq<char>,
    pub instruction: Seq<char>,
    pub priority: i32,
    pub category: Option<Seq<char>>,
}

impl View for AgentRule {
    type V = AgentRuleView;

    open spec fn view(&self) -> AgentRuleView {
        AgentRuleView {
            id: self.id,
            name: self.name@,
            instruction: self.instruction@,
            priority: self.priority,
            category: opt_text(self.category),
        }
    }
}

impl Clone for AgentRule {
    fn clone(&self) -> (r: Self)
        ensures
            r == *self,
    {
        AgentRule {
            id: self.id,
            name: self.name.clone(),
            instruction: self.instruction.clone(),
            priority: self.priority,
            category: clone_opt(&self.category),
        }
    }
}

/// A reusable prompt, identified by its name.
#[derive(Debug)]
pub struct Prompt {
    pub id: i64,
    pub name: String,
    pub prompt_text: String,
    pub description: Option<String>,
    pub category: Option<String>,
    pub variables: Option<String>,
}

/// The view of [`Prompt`]: the same, with every string as a `Seq<char>`.
pub struct PromptView {
    pub id: i64,
    pub name: Seq<char>,
    pub prompt_text: Seq<char>,
    pub description: Option<Seq<char>>,
    pub category: Option<Seq<char>>,
    pub variables: Option<Seq<char>>,
}

impl View for Prompt {
    type V = PromptView;

    open spec fn view(&self) -> PromptView {
        PromptView {
            id: self.id,
            name: self.name@,
            prompt_text: self.prompt_text@,
            description: opt_text(self.description),
            category: opt_text(self.category),
            variables: opt_text(self.variables),
        }
    }
}

impl Clone for Prompt {
    fn clone(&self) -> (r: Self)
        ensures
            r == *self,
    {
        Prompt {
            id: self.id,
            name: self.name.clone(),
            prompt_text: self.prompt_text.clone(),
            description: clone_opt(&self.description),
            category: clone_opt(&self.category),
            variables: clone_opt(&self.variables),
        }
    }
}

/// A copy of a list of numbers.
pub fn clone_ids(items: &Vec<i64>) -> (r: Vec<i64>)
    ensures
        r@ == items@,
{
    let mut out: Vec<i64> = Vec::new();
    let mut i: usize = 0;
    while i < items.len()
        invariant
            i <= items@.len(),
            out@ == items@.take(i as int),
        decreases items@.len() - i,
    {
        out.push(items[i]);
        assert(out@ =~= items@.take(i + 1));
        i += 1;
    }
    assert(items@.take(items@.len() as int) =~= items@);
    out
}

/// A named choice of prompts and rules: the numbers of the prompts and of
/// the rules that are active when it is loaded.
#[derive(Debug)]
pub struct Loadout {
    pub id: i64,
    pub name: String,
    pub is_default: bool,
    pub prompt_ids: Vec<i64>,
    pub rule_ids: Vec<i64>,
}

/// The view of [`Loadout`]: the same, with every string as a `Seq<char>`.
pub struct LoadoutView {
    pub id: i64,
    pub name: Seq<char>,
    pub is_default: bool,
    pub prompt_ids: Seq<i64>,
    pub rule_ids: Seq<i64>,
}

impl View for Loadout {
    type V = LoadoutView;

    open spec fn view(&self) -> LoadoutView {
        LoadoutView {
            id: self.id,
            name: self.name@,
            is_default: self.is_default,
            prompt_ids: self.prompt_ids@,
            rule_ids: self.rule_ids@,
        }
    }
}

impl Clone for Loadout {
    fn clone(&self) -> (r: Self)
        ensures
            r@ == self@,
    {
        Loadout {
            id: self.id,
            name: self.name.clone(),
            is_default: self.is_default,
            prompt_ids: clone_ids(&self.prompt_ids),
            rule_ids: clone_ids(&self.rule_ids),
        }
    }
}

} // verus!
