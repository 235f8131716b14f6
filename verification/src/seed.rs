//! The rules, the prompts and the loadout that a store holds from its
//! first opening.

use vstd::prelude::*;
use crate::model::{AgentRule, AgentRuleView, Prompt, PromptView};

verus! {

pub const READ_RULE_TEXT: &'static str =
    "When a user provides a SQLite contributions database file, you should:\n1. First, read the agent_rules table to understand how to use this database\n2. Read the repositories table to understand what repositories are tracked\n3. Read the contributions table to see what features/contributions have been documented\n4. Read the commits table for detailed commit information when needed\n5. Use the prompts table to find reusable prompts for common tasks\n6. Always check the updated_at timestamps to understand data freshness";

pub const GENERATE_RULE_TEXT: &'static str =
    "To generate or update a contributions markdown file:\n1. Query contributions table for the repository, ordered by priority DESC, then by name\n2. For each contribution, include: Name and overview, Key commits (look up details in commits table), Related commits, Technical details (from JSON field), Resume bullet points (from JSON array)\n3. Group related contributions by category\n4. Include timestamps from commits table for human-readable dates\n5. Always include author information from commits\n6. Maintain consistent formatting across all contribution files\n7. Update the markdown file, preserving existing structure where possible";

pub const CONSISTENCY_RULE_TEXT: &'static str =
    "When working with contributions data:\n1. Always use the same structure and format for similar contributions\n2. Keep resume bullet points concise and action-oriented\n3. Technical details should include: technology_stack, patterns, integrations, storage, security\n4. Categories should be consistent: Core Feature, Integration, Infrastructure, Feature Enhancement, Feature, Configuration, Performance, Bug Fix\n5. Priority should reflect importance: 10 = critical/core, 9-8 = major features, 7-5 = important features, 4-1 = minor features/fixes\n6. When adding new contributions, follow existing patterns in the database";

pub const ANALYZE_PROMPT_TEXT: &'static str =
    "Analyze the contributions database for repository {repository_url}.\n\n1. Read all agent rules from the agent_rules table\n2. Query all contributions for this repository\n3. For each contribution, provide:\n   - Summary of what was built\n   - Key technical details\n   - Resume bullet points\n   - Associated commits with dates\n\nGenerate a comprehensive analysis following the patterns established in the database.";

pub const GENERATE_PROMPT_TEXT: &'static str =
    "Update the contributions markdown file for repository {repository_url} based on the contributions database.\n\n1. Read the current markdown file if it exists\n2. Query contributions from database ordered by priority and category\n3. Generate/update markdown following the established format\n4. Include all contributions with their details\n5. Maintain consistency with existing documentation style\n6. Update timestamps and author information from commits table";

/// The three rules of a new store, numbered from `first` on.
pub open spec fn seed_rules(first: i64) -> Seq<AgentRuleView> {
    seq![
        AgentRuleView {
            id: first,
            name: "read_contributions_database"@,
            instruction: READ_RULE_TEXT@,
            priority: 10,
            category: Some("Database Usage"@),
        },
        AgentRuleView {
            id: (first + 1) as i64,
            name: "generate_contributions_markdown"@,
            instruction: GENERATE_RULE_TEXT@,
            priority: 9,
            category: Some("Documentation"@),
        },
        AgentRuleView {
            id: (first + 2) as i64,
            name: "maintain_consistency"@,
            instruction: CONSISTENCY_RULE_TEXT@,
            priority: 8,
            category: Some("Data Quality"@),
        },
    ]
}

/// The two prompts of a new store, numbered from `first` on.
pub open spec fn seed_prompts(first: i64) -> Seq<PromptView> {
    seq![
        PromptView {
            id: first,
            name: "analyze_contributions"@,
            prompt_text: ANALYZE_PROMPT_TEXT@,
            description: Some("Prompt for analyzing all contributions in a repository"@),
            category: Some("Analysis"@),
            variables: Some("[\"repository_url\"]"@),
        },
        PromptView {
            id: (first + 1) as i64,
            name: "generate_contributions_markdown"@,
            prompt_text: GENERATE_PROMPT_TEXT@,
            description: Some("Prompt for updating contributions markdown file"@),
            category: Some("Documentation"@),
            variables: Some("[\"repository_url\"]"@),
        },
    ]
}

/// The names of the seed rules differ, and so do those of the seed
/// prompts.
pub proof fn lemma_seed_names_differ()
    ensures
        "read_contributions_database"@ != "generate_contributions_markdown"@,
        "read_contributions_database"@ != "maintain_consistency"@,
        "generate_contributions_markdown"@ != "maintain_consistency"@,
        "analyze_contributions"@ != "generate_contributions_markdown"@,
{
    reveal_strlit("read_contributions_database");
    reveal_strlit("generate_contributions_markdown");
    reveal_strlit("maintain_consistency");
    reveal_strlit("analyze_contributions");
    assert("read_contributions_database"@.len() == 27);
    assert("generate_contributions_markdown"@.len() == 31);
    assert("maintain_consistency"@.len() == 20);
    assert("analyze_contributions"@.len() == 21);
}

/// The three rules of a new store, numbered from `first` on.
pub(crate) fn make_seed_rules(first: i64) -> (r: Vec<AgentRule>)
    requires
        first <= i64::MAX - 3,
    ensures
        crate::model::views(r@) == seed_rules(first),
{
    let mut rules: Vec<AgentRule> = Vec::new();
    rules.push(
        AgentRule {
            id: first,
            name: String::from_str("read_contributions_database"),
            instruction: String::from_str(READ_RULE_TEXT),
            priority: 10,
            category: Some(String::from_str("Database Usage")),
        },
    );
    rules.push(
        AgentRule {
            id: first + 1,
            name: String::from_str("generate_contributions_markdown"),
            instruction: String::from_str(GENERATE_RULE_TEXT),
            priority: 9,
            category: Some(String::from_str("Documentation")),
        },
    );
    rules.push(
        AgentRule {
            id: first + 2,
            name: String::from_str("maintain_consistency"),
            instruction: String::from_str(CONSISTENCY_RULE_TEXT),
            priority: 8,
            category: Some(String::from_str("Data Quality")),
        },
    );
    assert(crate::model::views(rules@) =~= seed_rules(first));
    rules
}

/// The two prompts of a new store, numbered from `first` on.
pub(crate) fn make_seed_prompts(first: i64) -> (r: Vec<Prompt>)
    requires
        first <= i64::MAX - 2,
    ensures
        crate::model::views(r@) == seed_prompts(first),
{
    let mut prompts: Vec<Prompt> = Vec::new();
    prompts.push(
        Prompt {
            id: first,
            name: String::from_str("analyze_contributions"),
            prompt_text: String::from_str(ANALYZE_PROMPT_TEXT),
            description: Some(
                String::from_str("Prompt for analyzing all contributions in a repository"),
            ),
            category: Some(String::from_str("Analysis")),
            variables: Some(String::from_str("[\"repository_url\"]")),
        },
    );
    prompts.push(
        Prompt {
            id: first + 1,
            name: String::from_str("generate_contributions_markdown"),
            prompt_text: String::from_str(GENERATE_PROMPT_TEXT),
            description: Some(String::from_str("Prompt for updating contributions markdown file")),
            category: Some(String::from_str("Documentation")),
            variables: Some(String::from_str("[\"repository_url\"]")),
        },
    );
    assert(crate::model::views(prompts@) =~= seed_prompts(first));
    prompts
}

} // verus!
