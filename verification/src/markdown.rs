//! The document that presents the contributions to a repository.

use vstd::prelude::*;
use crate::model::{
    views, Commit, CommitView, Contribution, ContributionView, DetailValue, DetailValueView,
    TechnicalDetail, TechnicalDetailView,
};
use crate::order::retain;
use crate::state::{first_match, lemma_first_match_is};
use crate::text::{
    decimal, indented, lemma_append_twice, opt_text, push_decimal, push_indented,
    push_signed_decimal, signed_decimal, starts_with, texts, trim, trimmed,
};

verus! {

/// Selects the commits that are shown when commits are filtered by
/// `author`: all where no author is given, else those of that author.
pub open spec fn by_author(author: Option<Seq<char>>) -> spec_fn(CommitView) -> bool {
    |c: CommitView| author is None || Some(c.author) == author
}

/// Selects the commits whose hash starts with `id`.
pub open spec fn resolving(id: Seq<char>) -> spec_fn(CommitView) -> bool {
    |c: CommitView| id.is_prefix_of(c.hash)
}

/// The text of a technical detail's value.
pub open spec fn detail_text(value: DetailValueView) -> Seq<char> {
    match value {
        DetailValueView::Null => "null"@,
        DetailValueView::Flag(b) => if b {
            "true"@
        } else {
            "false"@
        },
        DetailValueView::Number(n) => signed_decimal(n as int),
        DetailValueView::Text(t) => t,
        DetailValueView::Structured(t) => t,
    }
}

/// Date, author and message of a commit, on one line with its
/// continuation lines.
pub open spec fn commit_summary(c: CommitView) -> Seq<char> {
    c.date + " "@ + c.author + ": "@ + indented(trimmed(c.message), "  "@)
}

/// The line for the commit identifier `id` that a contribution lists:
/// the identifier, and what the first of `shown` that it is a prefix of
/// says, where there is one.
pub open spec fn reference_line(id: Seq<char>, shown: Seq<CommitView>) -> Seq<char> {
    let i = first_match(shown, resolving(id));
    "- `"@ + id + "`"@ + if i < shown.len() {
        " "@ + commit_summary(shown[i])
    } else {
        Seq::empty()
    } + "\n"@
}

/// The lines for the commit identifiers `ids`.
pub open spec fn reference_lines(ids: Seq<Seq<char>>, shown: Seq<CommitView>) -> Seq<char>
    decreases ids.len(),
{
    if ids.len() == 0 {
        Seq::empty()
    } else {
        reference_lines(ids.drop_last(), shown) + reference_line(ids.last(), shown)
    }
}

/// How many lines a commit added and removed, where that is known.
pub open spec fn commit_statistics(c: CommitView) -> Seq<char> {
    if c.lines_added is Some && c.lines_deleted is Some {
        " (+"@ + signed_decimal(c.lines_added->0 as int) + " -"@ + signed_decimal(
            c.lines_deleted->0 as int,
        ) + ")"@
    } else {
        Seq::empty()
    }
}

/// The line for a commit that belongs to a contribution.
pub open spec fn commit_line(c: CommitView) -> Seq<char> {
    "- `"@ + c.hash + "` "@ + c.date + " "@ + c.author + " <"@ + c.author_email + ">: "@
        + indented(trimmed(c.message), "  "@) + commit_statistics(c) + "\n"@
}

/// The lines for the commits `commits`.
pub open spec fn commit_lines(commits: Seq<CommitView>) -> Seq<char>
    decreases commits.len(),
{
    if commits.len() == 0 {
        Seq::empty()
    } else {
        commit_lines(commits.drop_last()) + commit_line(commits.last())
    }
}

/// The line for a technical detail.
pub open spec fn detail_line(d: TechnicalDetailView) -> Seq<char> {
    "- **"@ + d.key + "**: "@ + detail_text(d.value) + "\n"@
}

/// The lines for the technical details `details`.
pub open spec fn detail_lines(details: Seq<TechnicalDetailView>) -> Seq<char>
    decreases details.len(),
{
    if details.len() == 0 {
        Seq::empty()
    } else {
        detail_lines(details.drop_last()) + detail_line(details.last())
    }
}

/// The lines for the resume bullets `bullets`, numbered from 1.
pub open spec fn bullet_lines(bullets: Seq<Seq<char>>) -> Seq<char>
    decreases bullets.len(),
{
    if bullets.len() == 0 {
        Seq::empty()
    } else {
        bullet_lines(bullets.drop_last()) + decimal(bullets.len()) + ". "@ + bullets.last()
            + "\n"@
    }
}

/// The heading of a contribution's section: its name, its category and
/// its priority.
pub open spec fn section_head(c: ContributionView) -> Seq<char> {
    "\n## "@ + c.name + "\n\n**Category:** "@ + c.category + " | **Priority:** "@ + decimal(
        c.priority as nat,
    ) + "\n"@
}

/// A paragraph that holds `body` under the heading `heading`; nothing
/// where `body` is empty.
pub open spec fn paragraph(heading: Seq<char>, body: Seq<char>) -> Seq<char> {
    if body.len() > 0 {
        "\n"@ + heading + body + "\n"@
    } else {
        Seq::empty()
    }
}

/// The commit identifiers `ids` under `heading`; nothing where there are
/// none.
pub open spec fn references_part(
    heading: Seq<char>,
    ids: Seq<Seq<char>>,
    shown: Seq<CommitView>,
) -> Seq<char> {
    if ids.len() > 0 {
        heading + reference_lines(ids, shown)
    } else {
        Seq::empty()
    }
}

/// The commits `shown` under their heading; nothing where there are none.
pub open spec fn commits_part(shown: Seq<CommitView>) -> Seq<char> {
    if shown.len() > 0 {
        "\n### Commits\n\n"@ + commit_lines(shown)
    } else {
        Seq::empty()
    }
}

/// The technical details under their heading; nothing where there are
/// none.
pub open spec fn details_part(details: Seq<TechnicalDetailView>) -> Seq<char> {
    if details.len() > 0 {
        "\n### Technical Details\n\n"@ + detail_lines(details)
    } else {
        Seq::empty()
    }
}

/// The resume bullets under their heading; nothing where there are none.
pub open spec fn bullets_part(bullets: Seq<Seq<char>>) -> Seq<char> {
    if bullets.len() > 0 {
        "\n### Resume Bullets\n\n"@ + bullet_lines(bullets)
    } else {
        Seq::empty()
    }
}

/// The part of the document that presents the contribution `c` with the
/// commits `shown`: its heading, its overview, its description, the key
/// commits and the related commits that it lists, the commits that belong
/// to it, its technical details and its resume bullets. A part that would
/// hold nothing is left out with its heading.
pub open spec fn contribution_section(c: ContributionView, shown: Seq<CommitView>) -> Seq<char> {
    section_head(c) + paragraph(""@, c.overview) + paragraph(
        "### Description\n\n"@,
        c.description,
    ) + references_part("\n### Key Commits\n\n"@, c.key_commits, shown) + references_part(
        "\n### Related Commits\n\n"@,
        c.related_commits,
        shown,
    ) + commits_part(shown) + details_part(c.technical_details) + bullets_part(c.resume_bullets)
}

/// The sections of the contributions `entries`, each with those of its
/// commits that `author` selects.
pub open spec fn contribution_sections(
    entries: Seq<(ContributionView, Seq<CommitView>)>,
    author: Option<Seq<char>>,
) -> Seq<char>
    decreases entries.len(),
{
    if entries.len() == 0 {
        Seq::empty()
    } else {
        contribution_sections(entries.drop_last(), author) + contribution_section(
            entries.last().0,
            entries.last().1.filter(by_author(author)),
        )
    }
}

/// The document for the repository `url`: a title, the repository, the
/// author where commits are filtered by one, and a section for each
/// contribution, in the order in which they are given.
pub open spec fn document(
    url: Seq<char>,
    entries: Seq<(ContributionView, Seq<CommitView>)>,
    author: Option<Seq<char>>,
) -> Seq<char> {
    document_head(url, author) + contribution_sections(entries, author)
}

/// The start of a document: its title, the repository, and the author
/// where commits are filtered by one.
pub open spec fn document_head(url: Seq<char>, author: Option<Seq<char>>) -> Seq<char> {
    "# Contributions\n\nRepository: "@ + url + "\n"@ + match author {
        Some(a) => "Author: "@ + a + "\n"@,
        None => Seq::empty(),
    }
}

/// Contributions with their commits, as texts.
pub open spec fn entry_views(entries: Seq<(Contribution, Vec<Commit>)>) -> Seq<
    (ContributionView, Seq<CommitView>),
> {
    Seq::new(entries.len(), |i: int| (entries[i].0@, views(entries[i].1@)))
}

/// Appends the text of a technical detail's value to `out`.
pub(crate) fn push_detail_text(out: &mut String, value: &DetailValue)
    ensures
        final(out)@ == old(out)@ + detail_text(value@),
{
    match value {
        DetailValue::Null => out.append("null"),
        DetailValue::Flag(b) => {
            if *b {
                out.append("true");
            } else {
                out.append("false");
            }
        },
        DetailValue::Number(n) => push_signed_decimal(out, *n),
        DetailValue::Text(t) => out.append(t.as_str()),
        DetailValue::Structured(t) => out.append(t.as_str()),
    }
}

fn push_commit_summary(out: &mut String, c: &Commit)
    ensures
        final(out)@ == old(out)@ + commit_summary(c@),
{
    out.append(c.date.as_str());
    out.append(" ");
    out.append(c.author.as_str());
    out.append(": ");
    let message = trim(c.message.as_str());
    push_indented(out, message.as_str(), "  ");
    assert(out@ =~= old(out)@ + commit_summary(c@));
}

/// The place of the first of `shown` whose hash starts with `id`.
fn resolve(shown: &Vec<Commit>, id: &str) -> (r: usize)
    ensures
        r == first_match(views(shown@), resolving(id@)),
        r <= shown@.len(),
{
    let mut i: usize = 0;
    while i < shown.len() && !starts_with(shown[i].hash.as_str(), id)
        invariant
            i <= shown@.len(),
            forall|j: int| 0 <= j < i ==> !id@.is_prefix_of(shown@[j].hash@),
        decreases shown@.len() - i,
    {
        i += 1;
    }
    proof {
        let all = views(shown@);
        assert forall|j: int| 0 <= j < i implies !resolving(id@)(#[trigger] all[j]) by {
            assert(all[j].hash == shown@[j].hash@);
        }
        if i < shown@.len() {
            assert(all[i as int].hash == shown@[i as int].hash@);
        }
        lemma_first_match_is(all, resolving(id@), i as int);
    }
    i
}

fn push_reference_lines(out: &mut String, ids: &Vec<String>, shown: &Vec<Commit>)
    ensures
        final(out)@ == old(out)@ + reference_lines(texts(ids@), views(shown@)),
{
    let ghost all = texts(ids@);
    let mut i: usize = 0;
    assert(out@ =~= old(out)@ + reference_lines(all.take(0), views(shown@)));
    while i < ids.len()
        invariant
            i <= ids@.len(),
            all == texts(ids@),
            out@ == old(out)@ + reference_lines(all.take(i as int), views(shown@)),
        decreases ids@.len() - i,
    {
        let ghost before = out@;
        proof {
            assert(all.take(i + 1).drop_last() =~= all.take(i as int));
            assert(all.take(i + 1).last() == ids@[i as int]@);
        }
        out.append("- `");
        out.append(ids[i].as_str());
        out.append("`");
        let found = resolve(shown, ids[i].as_str());
        if found < shown.len() {
            out.append(" ");
            push_commit_summary(out, &shown[found]);
        }
        out.append("\n");
        assert(out@ =~= before + reference_line(ids@[i as int]@, views(shown@)));
        assert(out@ =~= old(out)@ + reference_lines(all.take(i + 1), views(shown@)));
        i += 1;
    }
    assert(all.take(ids@.len() as int) =~= all);
}

fn push_statistics(out: &mut String, c: &Commit)
    ensures
        final(out)@ == old(out)@ + commit_statistics(c@),
{
    match (c.lines_added, c.lines_deleted) {
        (Some(added), Some(deleted)) => {
            out.append(" (+");
            push_signed_decimal(out, added as i64);
            out.append(" -");
            push_signed_decimal(out, deleted as i64);
            out.append(")");
            assert(out@ =~= old(out)@ + commit_statistics(c@));
        },
        _ => {
            assert(out@ =~= old(out)@ + commit_statistics(c@));
        },
    }
}

#[verifier::rlimit(40)]
fn push_commit_line(out: &mut String, c: &Commit)
    ensures
        final(out)@ == old(out)@ + commit_line(c@),
{
    out.append("- `");
    out.append(c.hash.as_str());
    out.append("` ");
    out.append(c.date.as_str());
    out.append(" ");
    out.append(c.author.as_str());
    out.append(" <");
    out.append(c.author_email.as_str());
    out.append(">: ");
    let message = trim(c.message.as_str());
    push_indented(out, message.as_str(), "  ");
    push_statistics(out, c);
    out.append("\n");
    assert(out@ =~= old(out)@ + commit_line(c@));
}

fn push_commit_lines(out: &mut String, commits: &Vec<Commit>)
    ensures
        final(out)@ == old(out)@ + commit_lines(views(commits@)),
{
    let ghost all = views(commits@);
    let mut i: usize = 0;
    assert(out@ =~= old(out)@ + commit_lines(all.take(0)));
    while i < commits.len()
        invariant
            i <= commits@.len(),
            all == views(commits@),
            out@ == old(out)@ + commit_lines(all.take(i as int)),
        decreases commits@.len() - i,
    {
        proof {
            assert(all.take(i + 1).drop_last() =~= all.take(i as int));
            assert(all.take(i + 1).last() == commits@[i as int]@);
            lemma_append_twice(
                old(out)@,
                commit_lines(all.take(i as int)),
                commit_line(commits@[i as int]@),
            );
        }
        push_commit_line(out, &commits[i]);
        i += 1;
    }
    assert(all.take(commits@.len() as int) =~= all);
}

fn push_detail_lines(out: &mut String, details: &Vec<TechnicalDetail>)
    ensures
        final(out)@ == old(out)@ + detail_lines(views(details@)),
{
    let ghost all = views(details@);
    let mut i: usize = 0;
    assert(out@ =~= old(out)@ + detail_lines(all.take(0)));
    while i < details.len()
        invariant
            i <= details@.len(),
            all == views(details@),
            out@ == old(out)@ + detail_lines(all.take(i as int)),
        decreases details@.len() - i,
    {
        let ghost before = out@;
        proof {
            assert(all.take(i + 1).drop_last() =~= all.take(i as int));
            assert(all.take(i + 1).last() == details@[i as int]@);
        }
        out.append("- **");
        out.append(details[i].key.as_str());
        out.append("**: ");
        push_detail_text(out, &details[i].value);
        out.append("\n");
        assert(out@ =~= before + detail_line(details@[i as int]@));
        assert(out@ =~= old(out)@ + detail_lines(all.take(i + 1)));
        i += 1;
    }
    assert(all.take(details@.len() as int) =~= all);
}

fn push_bullet_lines(out: &mut String, bullets: &Vec<String>)
    ensures
        final(out)@ == old(out)@ + bullet_lines(texts(bullets@)),
{
    let ghost all = texts(bullets@);
    let mut i: usize = 0;
    assert(out@ =~= old(out)@ + bullet_lines(all.take(0)));
    while i < bullets.len()
        invariant
            i <= bullets@.len(),
            all == texts(bullets@),
            out@ == old(out)@ + bullet_lines(all.take(i as int)),
        decreases bullets@.len() - i,
    {
        proof {
            assert(all.take(i + 1).drop_last() =~= all.take(i as int));
            assert(all.take(i + 1).last() == bullets@[i as int]@);
        }
        push_decimal(out, (i + 1) as u64);
        out.append(". ");
        out.append(bullets[i].as_str());
        out.append("\n");
        assert(out@ =~= old(out)@ + bullet_lines(all.take(i + 1)));
        i += 1;
    }
    assert(all.take(bullets@.len() as int) =~= all);
}

/// Those of `commits` that are shown when commits are filtered by
/// `author`.
pub fn commits_by_author(commits: &Vec<Commit>, author: &Option<String>) -> (r: Vec<Commit>)
    ensures
        views(r@) == views(commits@).filter(by_author(opt_text(*author))),
{
    let mut mask: Vec<bool> = Vec::new();
    let mut i: usize = 0;
    while i < commits.len()
        invariant
            i <= commits@.len(),
            mask@.len() == i,
            forall|j: int|
                0 <= j < i ==> mask@[j] == (*author is None || Some(commits@[j].author@)
                    == opt_text(*author)),
        decreases commits@.len() - i,
    {
        let keep = match author {
            Some(a) => commits[i].author.as_str().eq(a.as_str()),
            None => true,
        };
        mask.push(keep);
        i += 1;
    }
    proof {
        assert forall|j: int| 0 <= j < commits@.len() implies mask@[j] == by_author(
            opt_text(*author),
        )(#[trigger] views(commits@)[j]) by {
            assert(views(commits@)[j].author == commits@[j].author@);
        }
    }
    retain(commits, &mask, Ghost(by_author(opt_text(*author))))
}

#[verifier::rlimit(40)]
fn push_section_head(out: &mut String, c: &Contribution)
    ensures
        final(out)@ == old(out)@ + section_head(c@),
{
    out.append("\n## ");
    out.append(c.name.as_str());
    out.append("\n\n**Category:** ");
    out.append(c.category.as_str());
    out.append(" | **Priority:** ");
    push_decimal(out, c.priority as u64);
    out.append("\n");
    assert(out@ =~= old(out)@ + section_head(c@));
}

fn push_paragraph(out: &mut String, heading: &str, body: &str)
    ensures
        final(out)@ == old(out)@ + paragraph(heading@, body@),
{
    if body.unicode_len() > 0 {
        out.append("\n");
        out.append(heading);
        out.append(body);
        out.append("\n");
        assert(out@ =~= old(out)@ + paragraph(heading@, body@));
    } else {
        assert(out@ =~= old(out)@ + paragraph(heading@, body@));
    }
}

fn push_references_part(out: &mut String, heading: &str, ids: &Vec<String>, shown: &Vec<Commit>)
    ensures
        final(out)@ == old(out)@ + references_part(heading@, texts(ids@), views(shown@)),
{
    if ids.len() > 0 {
        out.append(heading);
        push_reference_lines(out, ids, shown);
        assert(out@ =~= old(out)@ + references_part(heading@, texts(ids@), views(shown@)));
    } else {
        assert(out@ =~= old(out)@ + references_part(heading@, texts(ids@), views(shown@)));
    }
}

fn push_commits_part(out: &mut String, shown: &Vec<Commit>)
    ensures
        final(out)@ == old(out)@ + commits_part(views(shown@)),
{
    if shown.len() > 0 {
        out.append("\n### Commits\n\n");
        push_commit_lines(out, shown);
        assert(out@ =~= old(out)@ + commits_part(views(shown@)));
    } else {
        assert(out@ =~= old(out)@ + commits_part(views(shown@)));
    }
}

fn push_details_part(out: &mut String, details: &Vec<TechnicalDetail>)
    ensures
        final(out)@ == old(out)@ + details_part(views(details@)),
{
    if details.len() > 0 {
        out.append("\n### Technical Details\n\n");
        push_detail_lines(out, details);
        assert(out@ =~= old(out)@ + details_part(views(details@)));
    } else {
        assert(out@ =~= old(out)@ + details_part(views(details@)));
    }
}

fn push_bullets_part(out: &mut String, bullets: &Vec<String>)
    ensures
        final(out)@ == old(out)@ + bullets_part(texts(bullets@)),
{
    if bullets.len() > 0 {
        out.append("\n### Resume Bullets\n\n");
        push_bullet_lines(out, bullets);
        assert(out@ =~= old(out)@ + bullets_part(texts(bullets@)));
    } else {
        assert(out@ =~= old(out)@ + bullets_part(texts(bullets@)));
    }
}

#[verifier::rlimit(40)]
fn push_contribution_section(out: &mut String, c: &Contribution, shown: &Vec<Commit>)
    ensures
        final(out)@ == old(out)@ + contribution_section(c@, views(shown@)),
{
    let ghost start = out@;
    let ghost heading = section_head(c@);
    let ghost overview = paragraph(""@, c@.overview);
    let ghost description = paragraph("### Description\n\n"@, c@.description);
    let ghost keys = references_part("\n### Key Commits\n\n"@, c@.key_commits, views(shown@));
    let ghost related = references_part(
        "\n### Related Commits\n\n"@,
        c@.related_commits,
        views(shown@),
    );
    let ghost commits = commits_part(views(shown@));
    let ghost details = details_part(views(c.technical_details@));
    let ghost bullets = bullets_part(texts(c.resume_bullets@));
    push_section_head(out, c);
    push_paragraph(out, "", c.overview.as_str());
    push_paragraph(out, "### Description\n\n", c.description.as_str());
    push_references_part(out, "\n### Key Commits\n\n", &c.key_commits, shown);
    push_references_part(out, "\n### Related Commits\n\n", &c.related_commits, shown);
    push_commits_part(out, shown);
    push_details_part(out, &c.technical_details);
    push_bullets_part(out, &c.resume_bullets);
    proof {
        assert(out@ == start + heading + overview + description + keys + related + commits + details + bullets);
        lemma_append_twice(start, heading, overview);
        lemma_append_twice(start, heading + overview, description);
        lemma_append_twice(start, heading + overview + description, keys);
        lemma_append_twice(start, heading + overview + description + keys, related);
        lemma_append_twice(start, heading + overview + description + keys + related, commits);
        lemma_append_twice(start, heading + overview + description + keys + related + commits, details);
        lemma_append_twice(start, heading + overview + description + keys + related + commits + details, bullets);
        assert(contribution_section(c@, views(shown@)) == heading + overview + description + keys + related + commits + details + bullets);
    }
}

fn document_start(repo_url: &str, author: &Option<String>) -> (r: String)
    ensures
        r@ == document_head(repo_url@, opt_text(*author)),
{
    let mut out = String::from_str("# Contributions\n\nRepository: ");
    out.append(repo_url);
    out.append("\n");
    match author {
        Some(a) => {
            out.append("Author: ");
            out.append(a.as_str());
            out.append("\n");
            assert(out@ =~= document_head(repo_url@, opt_text(*author)));
        },
        None => {
            assert(out@ =~= document_head(repo_url@, opt_text(*author)));
        },
    }
    out
}

/// The document for the repository `repo_url`: a section for each of
/// `contributions`, in the order given, with those of its commits that
/// `author` selects. Every field of a contribution that holds something is
/// in its section.
pub fn generate_markdown(
    repo_url: &str,
    contributions: &Vec<(Contribution, Vec<Commit>)>,
    author: &Option<String>,
) -> (r: String)
    ensures
        r@ == document(repo_url@, entry_views(contributions@), opt_text(*author)),
{
    let ghost all = entry_views(contributions@);
    let ghost filter = opt_text(*author);
    let mut out = document_start(repo_url, author);
    let ghost start = out@;
    let mut i: usize = 0;
    assert(out@ =~= start + contribution_sections(all.take(0), filter));
    while i < contributions.len()
        invariant
            i <= contributions@.len(),
            all == entry_views(contributions@),
            filter == opt_text(*author),
            out@ == start + contribution_sections(all.take(i as int), filter),
        decreases contributions@.len() - i,
    {
        proof {
            assert(all.take(i + 1).drop_last() =~= all.take(i as int));
            assert(all.take(i + 1).last() == (
                contributions@[i as int].0@,
                views(contributions@[i as int].1@),
            ));
        }
        let shown = commits_by_author(&contributions[i].1, author);
        push_contribution_section(&mut out, &contributions[i].0, &shown);
        assert(out@ =~= start + contribution_sections(all.take(i + 1), filter));
        i += 1;
    }
    assert(all.take(contributions@.len() as int) =~= all);
    out
}

} // verus!
