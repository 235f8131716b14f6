//! The texts that the commands print, each with the function that says
//! what it holds.

use vstd::prelude::*;
use crate::model::{
    views, AgentRule, AgentRuleView, Commit, CommitView, Contribution, ContributionView, Prompt,
    PromptView, Repository, RepositoryView, TechnicalDetail, TechnicalDetailView,
};
use crate::database::Statistics;
use crate::markdown::{detail_text, push_detail_text};
use crate::text::{
    decimal, indented, lemma_append_twice, opt_text, push_decimal, push_indented,
    push_signed_decimal, signed_decimal, texts,
};

verus! {

/// The line that stands under the title of a report.
pub const RULE_LINE: &'static str =
    "================================================================================\n";

/// The introduction that is printed before the rules and the prompts.
pub const BRIEFING_INTRODUCTION: &'static str =
    "Contrack - Contribution Tracking Tool for AI Agents\n==================================================\n\nContrack is a CLI tool designed to help AI agents track and document code contributions across repositories.\nIt maintains a SQLite database of repositories, contributions, commits, agent rules, and prompts.\n\nHOW TO USE THIS TOOL:\n---------------------\n1. Review the agent rules below to understand how to work with the contributions database\n2. Review the available prompts to see what tasks you can help with\n3. Ask the user which prompt they would like to execute\n4. Use the contrack CLI commands to interact with the database\n5. Always maintain consistency with existing data patterns\n\nAVAILABLE COMMANDS:\n-------------------\n  contrack init          - Initialize a new repository\n  contrack add           - Add a new contribution\n  contrack update        - Update commit details from git\n  contrack generate      - Generate contributions markdown file\n  contrack query         - Query the database (contributions, commits, stats)\n  contrack list          - List repositories\n  contrack locations     - List all database locations\n  contrack config        - Manage configuration file\n  contrack loadout       - Manage prompt and rule loadouts\n  contrack ai            - Show this AI configuration prompt\n\n";

/// What is printed after the rules and the prompts.
pub const BRIEFING_NEXT_STEPS: &'static str =
    "NEXT STEPS:\n-----------\nPlease ask the user which prompt they would like to execute from the list above.\nOnce they select a prompt, you can help them execute it using the contrack tool.\n";

/// `value`, or `fallback` where it is missing.
pub open spec fn or_text(value: Option<Seq<char>>, fallback: Seq<char>) -> Seq<char> {
    match value {
        Some(t) => t,
        None => fallback,
    }
}

/// Appends `value` to `out`, or `fallback` where it is missing.
pub fn push_or(out: &mut String, value: &Option<String>, fallback: &str)
    ensures
        final(out)@ == old(out)@ + or_text(opt_text(*value), fallback@),
{
    match value {
        Some(t) => out.append(t.as_str()),
        None => out.append(fallback),
    }
}

/// The entry of the rule `rule`, the `number`th of a briefing.
pub open spec fn rule_entry(number: nat, rule: AgentRuleView) -> Seq<char> {
    "\n"@ + decimal(number) + ". "@ + rule.name + " [Priority: "@ + signed_decimal(
        rule.priority as int,
    ) + ", Category: "@ + or_text(rule.category, "Uncategorized"@) + "]\n   "@ + indented(
        rule.instruction,
        "   "@,
    ) + "\n"@
}

/// The entries of `rules`, numbered from 1.
pub open spec fn rule_entries(rules: Seq<AgentRuleView>) -> Seq<char>
    decreases rules.len(),
{
    if rules.len() == 0 {
        Seq::empty()
    } else {
        rule_entries(rules.drop_last()) + rule_entry(rules.len(), rules.last())
    }
}

/// The part of a briefing that states the rules.
pub open spec fn rules_section(rules: Seq<AgentRuleView>) -> Seq<char> {
    "AGENT RULES:\n------------\n"@ + if rules.len() == 0 {
        "No agent rules found in database.\n\n"@
    } else {
        rule_entries(rules) + "\n"@
    }
}

/// The entry of the prompt `prompt`, the `number`th of a briefing.
pub open spec fn prompt_entry(number: nat, prompt: PromptView) -> Seq<char> {
    "\n"@ + decimal(number) + ". "@ + prompt.name + " [Category: "@ + or_text(
        prompt.category,
        "Uncategorized"@,
    ) + "]\n"@ + match prompt.description {
        Some(d) => "   Description: "@ + d + "\n"@,
        None => Seq::empty(),
    } + "   Prompt: "@ + indented(prompt.prompt_text, "   "@) + "\n"@
}

/// The entries of `prompts`, numbered from 1.
pub open spec fn prompt_entries(prompts: Seq<PromptView>) -> Seq<char>
    decreases prompts.len(),
{
    if prompts.len() == 0 {
        Seq::empty()
    } else {
        prompt_entries(prompts.drop_last()) + prompt_entry(prompts.len(), prompts.last())
    }
}

/// The part of a briefing that states the prompts.
pub open spec fn prompts_section(prompts: Seq<PromptView>) -> Seq<char> {
    "AVAILABLE PROMPTS:\n------------------\n"@ + if prompts.len() == 0 {
        "No prompts found in database.\n\n"@
    } else {
        prompt_entries(prompts) + "\n"@
    }
}

/// The briefing for an agent: the introduction, the rules, the prompts,
/// and what to do next.
pub open spec fn briefing(rules: Seq<AgentRuleView>, prompts: Seq<PromptView>) -> Seq<char> {
    BRIEFING_INTRODUCTION@ + rules_section(rules) + prompts_section(prompts)
        + BRIEFING_NEXT_STEPS@
}

#[verifier::rlimit(40)]
fn push_rule_entry(out: &mut String, number: usize, rule: &AgentRule)
    ensures
        final(out)@ == old(out)@ + rule_entry(number as nat, rule@),
{
    out.append("\n");
    push_decimal(out, number as u64);
    out.append(". ");
    out.append(rule.name.as_str());
    out.append(" [Priority: ");
    push_signed_decimal(out, rule.priority as i64);
    out.append(", Category: ");
    push_or(out, &rule.category, "Uncategorized");
    out.append("]\n   ");
    push_indented(out, rule.instruction.as_str(), "   ");
    out.append("\n");
    assert(out@ =~= old(out)@ + rule_entry(number as nat, rule@));
}

#[verifier::rlimit(40)]
fn push_prompt_entry(out: &mut String, number: usize, prompt: &Prompt)
    ensures
        final(out)@ == old(out)@ + prompt_entry(number as nat, prompt@),
{
    out.append("\n");
    push_decimal(out, number as u64);
    out.append(". ");
    out.append(prompt.name.as_str());
    out.append(" [Category: ");
    push_or(out, &prompt.category, "Uncategorized");
    out.append("]\n");
    match &prompt.description {
        Some(d) => {
            out.append("   Description: ");
            out.append(d.as_str());
            out.append("\n");
        },
        None => {},
    }
    out.append("   Prompt: ");
    push_indented(out, prompt.prompt_text.as_str(), "   ");
    out.append("\n");
    assert(out@ =~= old(out)@ + prompt_entry(number as nat, prompt@));
}

/// The briefing for an agent that is to work with a store that holds
/// the rules `rules` and the prompts `prompts`.
pub fn briefing_text(rules: &Vec<AgentRule>, prompts: &Vec<Prompt>) -> (r: String)
    ensures
        r@ == briefing(views(rules@), views(prompts@)),
{
    let mut out = String::from_str(BRIEFING_INTRODUCTION);
    out.append("AGENT RULES:\n------------\n");
    let ghost start = out@;
    if rules.len() == 0 {
        out.append("No agent rules found in database.\n\n");
    } else {
        let mut i: usize = 0;
        assert(out@ =~= start + rule_entries(views(rules@).take(0)));
        while i < rules.len()
            invariant
                i <= rules@.len(),
                out@ == start + rule_entries(views(rules@).take(i as int)),
            decreases rules@.len() - i,
        {
            proof {
                let all = views(rules@);
                assert(all.take(i + 1).drop_last() =~= all.take(i as int));
                assert(all.take(i + 1).last() == rules@[i as int]@);
            }
            push_rule_entry(&mut out, i + 1, &rules[i]);
            assert(out@ =~= start + rule_entries(views(rules@).take(i + 1)));
            i += 1;
        }
        assert(views(rules@).take(rules@.len() as int) =~= views(rules@));
        out.append("\n");
    }
    assert(out@ =~= BRIEFING_INTRODUCTION@ + rules_section(views(rules@)));
    out.append("AVAILABLE PROMPTS:\n------------------\n");
    let ghost middle = out@;
    if prompts.len() == 0 {
        out.append("No prompts found in database.\n\n");
    } else {
        let mut i: usize = 0;
        assert(out@ =~= middle + prompt_entries(views(prompts@).take(0)));
        while i < prompts.len()
            invariant
                i <= prompts@.len(),
                out@ == middle + prompt_entries(views(prompts@).take(i as int)),
            decreases prompts@.len() - i,
        {
            proof {
                let all = views(prompts@);
                assert(all.take(i + 1).drop_last() =~= all.take(i as int));
                assert(all.take(i + 1).last() == prompts@[i as int]@);
            }
            push_prompt_entry(&mut out, i + 1, &prompts[i]);
            assert(out@ =~= middle + prompt_entries(views(prompts@).take(i + 1)));
            i += 1;
        }
        assert(views(prompts@).take(prompts@.len() as int) =~= views(prompts@));
        out.append("\n");
    }
    assert(out@ =~= BRIEFING_INTRODUCTION@ + rules_section(views(rules@)) + prompts_section(
        views(prompts@),
    ));
    out.append(BRIEFING_NEXT_STEPS);
    out
}

/// The report of how many rows each table holds.
pub open spec fn statistics_report(
    repositories: nat,
    contributions: nat,
    commits: nat,
    agent_rules: nat,
    prompts: nat,
) -> Seq<char> {
    "\nDatabase Statistics\n"@ + RULE_LINE@ + "Repositories: "@ + decimal(repositories)
        + "\nContributions: "@ + decimal(contributions) + "\nCommits: "@ + decimal(commits)
        + "\nAgent Rules: "@ + decimal(agent_rules) + "\nPrompts: "@ + decimal(prompts) + "\n"@
}

/// The report of how many rows each table holds.
#[verifier::rlimit(40)]
pub fn statistics_text(stats: &Statistics) -> (r: String)
    ensures
        r@ == statistics_report(
            stats.repositories as nat,
            stats.contributions as nat,
            stats.commits as nat,
            stats.agent_rules as nat,
            stats.prompts as nat,
        ),
{
    let mut out = String::from_str("\nDatabase Statistics\n");
    out.append(RULE_LINE);
    out.append("Repositories: ");
    push_decimal(&mut out, stats.repositories as u64);
    out.append("\nContributions: ");
    push_decimal(&mut out, stats.contributions as u64);
    out.append("\nCommits: ");
    push_decimal(&mut out, stats.commits as u64);
    out.append("\nAgent Rules: ");
    push_decimal(&mut out, stats.agent_rules as u64);
    out.append("\nPrompts: ");
    push_decimal(&mut out, stats.prompts as u64);
    out.append("\n");
    out
}

/// What a list of contributions says of `c`.
pub open spec fn contribution_summary(c: ContributionView) -> Seq<char> {
    "\n* "@ + c.name + "\n  Category: "@ + c.category + " | Priority: "@ + decimal(
        c.priority as nat,
    ) + "\n  Overview: "@ + c.overview + "\n  Key Commits: "@ + decimal(c.key_commits.len())
        + "\n"@
}

/// What a list of contributions says of each of `rows`.
pub open spec fn contribution_summaries(rows: Seq<ContributionView>) -> Seq<char>
    decreases rows.len(),
{
    if rows.len() == 0 {
        Seq::empty()
    } else {
        contribution_summaries(rows.drop_last()) + contribution_summary(rows.last())
    }
}

/// The list of the contributions `rows` of the repository `url`.
pub open spec fn contributions_report(url: Seq<char>, rows: Seq<ContributionView>) -> Seq<char> {
    if rows.len() == 0 {
        "No contributions found for repository: "@ + url + "\n"@
    } else {
        "\nContributions for "@ + url + "\n"@ + RULE_LINE@ + contribution_summaries(rows)
    }
}

#[verifier::rlimit(40)]
fn push_contribution_summary(out: &mut String, c: &Contribution)
    ensures
        final(out)@ == old(out)@ + contribution_summary(c@),
{
    out.append("\n* ");
    out.append(c.name.as_str());
    out.append("\n  Category: ");
    out.append(c.category.as_str());
    out.append(" | Priority: ");
    push_decimal(out, c.priority as u64);
    out.append("\n  Overview: ");
    out.append(c.overview.as_str());
    out.append("\n  Key Commits: ");
    push_decimal(out, c.key_commits.len() as u64);
    out.append("\n");
    assert(out@ =~= old(out)@ + contribution_summary(c@));
}

/// The list of the contributions `rows` of the repository `url`.
pub fn contributions_text(url: &str, rows: &Vec<Contribution>) -> (r: String)
    ensures
        r@ == contributions_report(url@, views(rows@)),
{
    if rows.len() == 0 {
        let mut out = String::from_str("No contributions found for repository: ");
        out.append(url);
        out.append("\n");
        return out;
    }
    let mut out = String::from_str("\nContributions for ");
    out.append(url);
    out.append("\n");
    out.append(RULE_LINE);
    let ghost start = out@;
    let ghost all = views(rows@);
    let mut i: usize = 0;
    assert(out@ =~= start + contribution_summaries(all.take(0)));
    while i < rows.len()
        invariant
            i <= rows@.len(),
            all == views(rows@),
            out@ == start + contribution_summaries(all.take(i as int)),
        decreases rows@.len() - i,
    {
        proof {
            assert(all.take(i + 1).drop_last() =~= all.take(i as int));
            assert(all.take(i + 1).last() == rows@[i as int]@);
            lemma_append_twice(
                start,
                contribution_summaries(all.take(i as int)),
                contribution_summary(rows@[i as int]@),
            );
        }
        push_contribution_summary(&mut out, &rows[i]);
        i += 1;
    }
    assert(all.take(rows@.len() as int) =~= all);
    out
}

/// The lines of a list of texts, each after a dash.
pub open spec fn dash_lines(items: Seq<Seq<char>>) -> Seq<char>
    decreases items.len(),
{
    if items.len() == 0 {
        Seq::empty()
    } else {
        dash_lines(items.drop_last()) + "  - "@ + items.last() + "\n"@
    }
}

/// The lines of a list of texts, numbered from 1.
pub open spec fn numbered_lines(items: Seq<Seq<char>>) -> Seq<char>
    decreases items.len(),
{
    if items.len() == 0 {
        Seq::empty()
    } else {
        numbered_lines(items.drop_last()) + "  "@ + decimal(items.len()) + ". "@ + items.last()
            + "\n"@
    }
}

/// The lines of technical details, each a key with its value.
pub open spec fn detail_report_lines(details: Seq<TechnicalDetailView>) -> Seq<char>
    decreases details.len(),
{
    if details.len() == 0 {
        Seq::empty()
    } else {
        detail_report_lines(details.drop_last()) + "  "@ + details.last().key + ": "@
            + detail_text(details.last().value) + "\n"@
    }
}

/// The head of the report on the contribution `c`.
pub open spec fn contribution_head(c: ContributionView) -> Seq<char> {
    "\nContribution: "@ + c.name + "\n"@ + RULE_LINE@ + "Repository: "@ + c.repository_url
        + "\nCategory: "@ + c.category + " | Priority: "@ + decimal(c.priority as nat)
        + "\n\nOverview:\n"@ + c.overview + "\n\nDescription:\n"@ + c.description + "\n"@
}

/// The key commits of a contribution under their heading; nothing where
/// there are none.
pub open spec fn key_commits_part(ids: Seq<Seq<char>>) -> Seq<char> {
    if ids.len() > 0 {
        "\nKey Commits ("@ + decimal(ids.len()) + "):\n"@ + dash_lines(ids)
    } else {
        Seq::empty()
    }
}

/// The first five related commits of a contribution under their heading,
/// and how many more there are; nothing where there are none.
pub open spec fn related_commits_part(ids: Seq<Seq<char>>) -> Seq<char> {
    if ids.len() > 5 {
        "\nRelated Commits ("@ + decimal(ids.len()) + "):\n"@ + dash_lines(ids.take(5))
            + "  ... and "@ + decimal((ids.len() - 5) as nat) + " more\n"@
    } else if ids.len() > 0 {
        "\nRelated Commits ("@ + decimal(ids.len()) + "):\n"@ + dash_lines(ids)
    } else {
        Seq::empty()
    }
}

/// The technical details of a contribution under their heading; nothing
/// where there are none.
pub open spec fn technical_part(details: Seq<TechnicalDetailView>) -> Seq<char> {
    if details.len() > 0 {
        "\nTechnical Details:\n"@ + detail_report_lines(details)
    } else {
        Seq::empty()
    }
}

/// The resume bullets of a contribution under their heading; nothing
/// where there are none.
pub open spec fn resume_part(bullets: Seq<Seq<char>>) -> Seq<char> {
    if bullets.len() > 0 {
        "\nResume Bullets ("@ + decimal(bullets.len()) + "):\n"@ + numbered_lines(bullets)
    } else {
        Seq::empty()
    }
}

/// The report on the contribution `c`.
pub open spec fn contribution_report(c: ContributionView) -> Seq<char> {
    contribution_head(c) + key_commits_part(c.key_commits) + related_commits_part(
        c.related_commits,
    ) + technical_part(c.technical_details) + resume_part(c.resume_bullets)
}

fn push_dash_lines(out: &mut String, items: &Vec<String>, count: usize)
    requires
        count <= items@.len(),
    ensures
        final(out)@ == old(out)@ + dash_lines(texts(items@).take(count as int)),
{
    let ghost all = texts(items@);
    let mut i: usize = 0;
    assert(out@ =~= old(out)@ + dash_lines(all.take(0)));
    while i < count
        invariant
            i <= count <= items@.len(),
            all == texts(items@),
            out@ == old(out)@ + dash_lines(all.take(i as int)),
        decreases count - i,
    {
        proof {
            assert(all.take(i + 1).drop_last() =~= all.take(i as int));
            assert(all.take(i + 1).last() == items@[i as int]@);
        }
        out.append("  - ");
        out.append(items[i].as_str());
        out.append("\n");
        assert(out@ =~= old(out)@ + dash_lines(all.take(i + 1)));
        i += 1;
    }
}

fn push_numbered_lines(out: &mut String, items: &Vec<String>)
    ensures
        final(out)@ == old(out)@ + numbered_lines(texts(items@)),
{
    let ghost all = texts(items@);
    let mut i: usize = 0;
    assert(out@ =~= old(out)@ + numbered_lines(all.take(0)));
    while i < items.len()
        invariant
            i <= items@.len(),
            all == texts(items@),
            out@ == old(out)@ + numbered_lines(all.take(i as int)),
        decreases items@.len() - i,
    {
        proof {
            assert(all.take(i + 1).drop_last() =~= all.take(i as int));
            assert(all.take(i + 1).last() == items@[i as int]@);
        }
        out.append("  ");
        push_decimal(out, (i + 1) as u64);
        out.append(". ");
        out.append(items[i].as_str());
        out.append("\n");
        assert(out@ =~= old(out)@ + numbered_lines(all.take(i + 1)));
        i += 1;
    }
    assert(all.take(items@.len() as int) =~= all);
}

fn push_detail_report_lines(out: &mut String, details: &Vec<TechnicalDetail>)
    ensures
        final(out)@ == old(out)@ + detail_report_lines(views(details@)),
{
    let ghost all = views(details@);
    let mut i: usize = 0;
    assert(out@ =~= old(out)@ + detail_report_lines(all.take(0)));
    while i < details.len()
        invariant
            i <= details@.len(),
            all == views(details@),
            out@ == old(out)@ + detail_report_lines(all.take(i as int)),
        decreases details@.len() - i,
    {
        proof {
            assert(all.take(i + 1).drop_last() =~= all.take(i as int));
            assert(all.take(i + 1).last() == details@[i as int]@);
        }
        out.append("  ");
        out.append(details[i].key.as_str());
        out.append(": ");
        push_detail_text(out, &details[i].value);
        out.append("\n");
        assert(out@ =~= old(out)@ + detail_report_lines(all.take(i + 1)));
        i += 1;
    }
    assert(all.take(details@.len() as int) =~= all);
}

#[verifier::rlimit(40)]
fn push_contribution_head(out: &mut String, c: &Contribution)
    ensures
        final(out)@ == old(out)@ + contribution_head(c@),
{
    out.append("\nContribution: ");
    out.append(c.name.as_str());
    out.append("\n");
    out.append(RULE_LINE);
    out.append("Repository: ");
    out.append(c.repository_url.as_str());
    out.append("\nCategory: ");
    out.append(c.category.as_str());
    out.append(" | Priority: ");
    push_decimal(out, c.priority as u64);
    out.append("\n\nOverview:\n");
    out.append(c.overview.as_str());
    out.append("\n\nDescription:\n");
    out.append(c.description.as_str());
    out.append("\n");
    assert(out@ =~= old(out)@ + contribution_head(c@));
}

fn push_key_commits_part(out: &mut String, ids: &Vec<String>)
    ensures
        final(out)@ == old(out)@ + key_commits_part(texts(ids@)),
{
    if ids.len() > 0 {
        out.append("\nKey Commits (");
        push_decimal(out, ids.len() as u64);
        out.append("):\n");
        push_dash_lines(out, ids, ids.len());
        assert(texts(ids@).take(ids@.len() as int) =~= texts(ids@));
        assert(out@ =~= old(out)@ + key_commits_part(texts(ids@)));
    } else {
        assert(out@ =~= old(out)@ + key_commits_part(texts(ids@)));
    }
}

fn push_related_commits_part(out: &mut String, ids: &Vec<String>)
    ensures
        final(out)@ == old(out)@ + related_commits_part(texts(ids@)),
{
    if ids.len() > 5 {
        out.append("\nRelated Commits (");
        push_decimal(out, ids.len() as u64);
        out.append("):\n");
        push_dash_lines(out, ids, 5);
        out.append("  ... and ");
        push_decimal(out, (ids.len() - 5) as u64);
        out.append(" more\n");
        assert(out@ =~= old(out)@ + related_commits_part(texts(ids@)));
    } else if ids.len() > 0 {
        out.append("\nRelated Commits (");
        push_decimal(out, ids.len() as u64);
        out.append("):\n");
        push_dash_lines(out, ids, ids.len());
        assert(texts(ids@).take(ids@.len() as int) =~= texts(ids@));
        assert(out@ =~= old(out)@ + related_commits_part(texts(ids@)));
    } else {
        assert(out@ =~= old(out)@ + related_commits_part(texts(ids@)));
    }
}

fn push_technical_part(out: &mut String, details: &Vec<TechnicalDetail>)
    ensures
        final(out)@ == old(out)@ + technical_part(views(details@)),
{
    if details.len() > 0 {
        out.append("\nTechnical Details:\n");
        push_detail_report_lines(out, details);
        assert(out@ =~= old(out)@ + technical_part(views(details@)));
    } else {
        assert(out@ =~= old(out)@ + technical_part(views(details@)));
    }
}

fn push_resume_part(out: &mut String, bullets: &Vec<String>)
    ensures
        final(out)@ == old(out)@ + resume_part(texts(bullets@)),
{
    if bullets.len() > 0 {
        out.append("\nResume Bullets (");
        push_decimal(out, bullets.len() as u64);
        out.append("):\n");
        push_numbered_lines(out, bullets);
        assert(out@ =~= old(out)@ + resume_part(texts(bullets@)));
    } else {
        assert(out@ =~= old(out)@ + resume_part(texts(bullets@)));
    }
}

/// The report on the contribution `c`.
pub fn contribution_text(c: &Contribution) -> (r: String)
    ensures
        r@ == contribution_report(c@),
{
    let mut out = String::new();
    let ghost heading = contribution_head(c@);
    let ghost keys = key_commits_part(c@.key_commits);
    let ghost related = related_commits_part(c@.related_commits);
    let ghost details = technical_part(c@.technical_details);
    let ghost bullets = resume_part(c@.resume_bullets);
    push_contribution_head(&mut out, c);
    push_key_commits_part(&mut out, &c.key_commits);
    push_related_commits_part(&mut out, &c.related_commits);
    push_technical_part(&mut out, &c.technical_details);
    push_resume_part(&mut out, &c.resume_bullets);
    proof {
        let start = Seq::<char>::empty();
        assert(out@ == start + heading + keys + related + details + bullets);
        lemma_append_twice(start, heading, keys);
        lemma_append_twice(start, heading + keys, related);
        lemma_append_twice(start, heading + keys + related, details);
        lemma_append_twice(start, heading + keys + related + details, bullets);
        assert(start + contribution_report(c@) =~= contribution_report(c@));
    }
    out
}

/// The first eight characters of `hash`, or all of it where it is
/// shorter.
pub open spec fn short_hash(hash: Seq<char>) -> Seq<char> {
    if hash.len() > 8 {
        hash.take(8)
    } else {
        hash
    }
}

/// What a list of commits says of `c`.
pub open spec fn commit_report(c: CommitView) -> Seq<char> {
    "\n* "@ + short_hash(c.hash) + "\n  Author: "@ + c.author + " <"@ + c.author_email
        + ">\n  Date: "@ + c.date + "\n  Message: "@ + c.message + "\n"@ + if c.lines_added
        is Some && c.lines_deleted is Some {
        "  Changes: +"@ + signed_decimal(c.lines_added->0 as int) + " -"@ + signed_decimal(
            c.lines_deleted->0 as int,
        ) + "\n"@
    } else {
        Seq::empty()
    }
}

/// What a list of commits says of each of `rows`.
pub open spec fn commit_reports(rows: Seq<CommitView>) -> Seq<char>
    decreases rows.len(),
{
    if rows.len() == 0 {
        Seq::empty()
    } else {
        commit_reports(rows.drop_last()) + commit_report(rows.last())
    }
}

/// The list of the commits `rows` of the contribution named `name`.
pub open spec fn commits_report(name: Seq<char>, rows: Seq<CommitView>) -> Seq<char> {
    if rows.len() == 0 {
        "No commits found for contribution '"@ + name + "'\n"@
    } else {
        "\nCommits for '"@ + name + "'\n"@ + RULE_LINE@ + commit_reports(rows)
    }
}

#[verifier::rlimit(40)]
fn push_commit_report(out: &mut String, c: &Commit)
    ensures
        final(out)@ == old(out)@ + commit_report(c@),
{
    out.append("\n* ");
    let hash = c.hash.as_str();
    if hash.unicode_len() > 8 {
        out.append(hash.substring_char(0, 8));
    } else {
        out.append(hash);
    }
    out.append("\n  Author: ");
    out.append(c.author.as_str());
    out.append(" <");
    out.append(c.author_email.as_str());
    out.append(">\n  Date: ");
    out.append(c.date.as_str());
    out.append("\n  Message: ");
    out.append(c.message.as_str());
    out.append("\n");
    let ghost middle = out@;
    assert(middle =~= old(out)@ + ("\n* "@ + short_hash(c@.hash) + "\n  Author: "@ + c@.author
        + " <"@ + c@.author_email + ">\n  Date: "@ + c@.date + "\n  Message: "@ + c@.message
        + "\n"@));
    match (c.lines_added, c.lines_deleted) {
        (Some(added), Some(deleted)) => {
            out.append("  Changes: +");
            push_signed_decimal(out, added as i64);
            out.append(" -");
            push_signed_decimal(out, deleted as i64);
            out.append("\n");
            assert(out@ =~= old(out)@ + commit_report(c@));
        },
        _ => {
            assert(out@ =~= old(out)@ + commit_report(c@));
        },
    }
}

/// The list of the commits `rows` of the contribution named `name`.
pub fn commits_text(name: &str, rows: &Vec<Commit>) -> (r: String)
    ensures
        r@ == commits_report(name@, views(rows@)),
{
    if rows.len() == 0 {
        let mut out = String::from_str("No commits found for contribution '");
        out.append(name);
        out.append("'\n");
        return out;
    }
    let mut out = String::from_str("\nCommits for '");
    out.append(name);
    out.append("'\n");
    out.append(RULE_LINE);
    let ghost start = out@;
    let ghost all = views(rows@);
    let mut i: usize = 0;
    assert(out@ =~= start + commit_reports(all.take(0)));
    while i < rows.len()
        invariant
            i <= rows@.len(),
            all == views(rows@),
            out@ == start + commit_reports(all.take(i as int)),
        decreases rows@.len() - i,
    {
        proof {
            assert(all.take(i + 1).drop_last() =~= all.take(i as int));
            assert(all.take(i + 1).last() == rows@[i as int]@);
            lemma_append_twice(
                start,
                commit_reports(all.take(i as int)),
                commit_report(rows@[i as int]@),
            );
        }
        push_commit_report(&mut out, &rows[i]);
        i += 1;
    }
    assert(all.take(rows@.len() as int) =~= all);
    out
}

/// What a list of repositories says of `r`; `count` is the number of
/// its contributions, where the list is detailed.
pub open spec fn repository_entry(r: RepositoryView, count: Option<nat>) -> Seq<char> {
    "\n* "@ + r.name + "\n  URL: "@ + r.url + "\n  Organization: "@ + r.organization + "\n"@
        + match r.description {
        Some(d) => "  Description: "@ + d + "\n"@,
        None => Seq::empty(),
    } + match count {
        Some(n) => "  Contributions: "@ + decimal(n) + "\n"@,
        None => Seq::empty(),
    }
}

/// What a list of repositories says of each of `rows`; `counts` gives
/// the number of contributions of each, where the list is detailed.
pub open spec fn repository_entries(rows: Seq<RepositoryView>, counts: Option<Seq<nat>>) -> Seq<
    char,
>
    decreases rows.len(),
{
    if rows.len() == 0 {
        Seq::empty()
    } else {
        repository_entries(rows.drop_last(), counts) + repository_entry(
            rows.last(),
            match counts {
                Some(c) => Some(c[rows.len() - 1]),
                None => None,
            },
        )
    }
}

/// The list of the repositories `rows`.
pub open spec fn repositories_report(rows: Seq<RepositoryView>, counts: Option<Seq<nat>>) -> Seq<
    char,
> {
    if rows.len() == 0 {
        "No repositories found in database\n"@
    } else {
        "\nRepositories\n"@ + RULE_LINE@ + repository_entries(rows, counts)
    }
}

/// Numbers of contributions, as natural numbers.
pub open spec fn count_views(counts: Option<Vec<usize>>) -> Option<Seq<nat>> {
    match counts {
        Some(c) => Some(Seq::new(c@.len(), |i: int| c@[i] as nat)),
        None => None,
    }
}

#[verifier::rlimit(40)]
fn push_repository_entry(out: &mut String, r: &Repository, count: Option<usize>)
    ensures
        final(out)@ == old(out)@ + repository_entry(
            r@,
            match count {
                Some(n) => Some(n as nat),
                None => None,
            },
        ),
{
    out.append("\n* ");
    out.append(r.name.as_str());
    out.append("\n  URL: ");
    out.append(r.url.as_str());
    out.append("\n  Organization: ");
    out.append(r.organization.as_str());
    out.append("\n");
    match &r.description {
        Some(d) => {
            out.append("  Description: ");
            out.append(d.as_str());
            out.append("\n");
        },
        None => {},
    }
    let ghost middle = out@;
    assert(middle =~= old(out)@ + ("\n* "@ + r@.name + "\n  URL: "@ + r@.url
        + "\n  Organization: "@ + r@.organization + "\n"@ + match r@.description {
        Some(d) => "  Description: "@ + d + "\n"@,
        None => Seq::empty(),
    }));
    match count {
        Some(n) => {
            out.append("  Contributions: ");
            push_decimal(out, n as u64);
            out.append("\n");
            assert(out@ =~= old(out)@ + repository_entry(r@, Some(n as nat)));
        },
        None => {
            assert(out@ =~= old(out)@ + repository_entry(r@, None));
        },
    }
}

/// The list of the repositories `rows`; `counts` gives the number of
/// contributions of each, where the list is detailed.
pub(crate) fn repositories_text(rows: &Vec<Repository>, counts: &Option<Vec<usize>>) -> (r: String)
    requires
        *counts is Some ==> counts->0@.len() == rows@.len(),
    ensures
        r@ == repositories_report(views(rows@), count_views(*counts)),
{
    if rows.len() == 0 {
        return String::from_str("No repositories found in database\n");
    }
    let mut out = String::from_str("\nRepositories\n");
    out.append(RULE_LINE);
    let ghost start = out@;
    let ghost all = views(rows@);
    let ghost numbers = count_views(*counts);
    let mut i: usize = 0;
    assert(out@ =~= start + repository_entries(all.take(0), numbers));
    while i < rows.len()
        invariant
            i <= rows@.len(),
            all == views(rows@),
            numbers == count_views(*counts),
            *counts is Some ==> counts->0@.len() == rows@.len(),
            out@ == start + repository_entries(all.take(i as int), numbers),
        decreases rows@.len() - i,
    {
        let count = match counts {
            Some(c) => Some(c[i]),
            None => None,
        };
        proof {
            assert(all.take(i + 1).drop_last() =~= all.take(i as int));
            assert(all.take(i + 1).last() == rows@[i as int]@);
            let shown = match numbers {
                Some(c) => Some(c[i as int]),
                None => None,
            };
            lemma_append_twice(
                start,
                repository_entries(all.take(i as int), numbers),
                repository_entry(rows@[i as int]@, shown),
            );
        }
        push_repository_entry(&mut out, &rows[i], count);
        i += 1;
    }
    assert(all.take(rows@.len() as int) =~= all);
    out
}

/// What a list of loadouts says of one: its name, its number, and
/// whether it is the default one.
pub open spec fn loadout_entry(summary: (i64, Seq<char>, bool)) -> Seq<char> {
    "\n* "@ + summary.1 + " [ID: "@ + signed_decimal(summary.0 as int) + "]"@ + if summary.2 {
        " (default)"@
    } else {
        Seq::empty()
    } + "\n"@
}

/// What a list of loadouts says of each of `rows`.
pub open spec fn loadout_entries(rows: Seq<(i64, Seq<char>, bool)>) -> Seq<char>
    decreases rows.len(),
{
    if rows.len() == 0 {
        Seq::empty()
    } else {
        loadout_entries(rows.drop_last()) + loadout_entry(rows.last())
    }
}

/// The list of the loadouts `rows`.
pub open spec fn loadouts_report(rows: Seq<(i64, Seq<char>, bool)>) -> Seq<char> {
    if rows.len() == 0 {
        "No loadouts found\n"@
    } else {
        "\nLoadouts\n"@ + RULE_LINE@ + loadout_entries(rows) + "\n"@
    }
}

fn push_loadout_entry(out: &mut String, id: i64, name: &str, is_default: bool)
    ensures
        final(out)@ == old(out)@ + loadout_entry((id, name@, is_default)),
{
    out.append("\n* ");
    out.append(name);
    out.append(" [ID: ");
    push_signed_decimal(out, id);
    out.append("]");
    if is_default {
        out.append(" (default)");
    }
    out.append("\n");
    assert(out@ =~= old(out)@ + loadout_entry((id, name@, is_default)));
}

/// The list of the loadouts `rows`.
pub fn loadouts_text(rows: &Vec<(i64, String, bool)>) -> (r: String)
    ensures
        r@ == loadouts_report(crate::database::summary_views(rows@)),
{
    if rows.len() == 0 {
        return String::from_str("No loadouts found\n");
    }
    let mut out = String::from_str("\nLoadouts\n");
    out.append(RULE_LINE);
    let ghost start = out@;
    let ghost all = crate::database::summary_views(rows@);
    let mut i: usize = 0;
    assert(out@ =~= start + loadout_entries(all.take(0)));
    while i < rows.len()
        invariant
            i <= rows@.len(),
            all == crate::database::summary_views(rows@),
            out@ == start + loadout_entries(all.take(i as int)),
        decreases rows@.len() - i,
    {
        proof {
            assert(all.take(i + 1).drop_last() =~= all.take(i as int));
            assert(all.take(i + 1).last() == (
                rows@[i as int].0,
                rows@[i as int].1@,
                rows@[i as int].2,
            ));
            lemma_append_twice(
                start,
                loadout_entries(all.take(i as int)),
                loadout_entry(all[i as int]),
            );
        }
        push_loadout_entry(&mut out, rows[i].0, rows[i].1.as_str(), rows[i].2);
        i += 1;
    }
    assert(all.take(rows@.len() as int) =~= all);
    out.append("\n");
    out
}

/// What the update of a store from a history of `found` commits
/// reports, up to the `done`th commit: a line after every tenth.
pub open spec fn progress_lines(done: nat) -> Seq<char>
    decreases done,
{
    if done == 0 {
        Seq::empty()
    } else if done % 10 == 0 {
        progress_lines((done - 1) as nat) + "Processed "@ + decimal(done) + " commits...\n"@
    } else {
        progress_lines((done - 1) as nat)
    }
}

/// What the update of a store from a history of `found` commits
/// reports.
pub open spec fn update_report(found: nat) -> Seq<char> {
    "Found "@ + decimal(found) + " commits to process\n"@ + progress_lines(found)
        + "Update complete: "@ + decimal(found) + " processed\n"@
}

} // verus!
