//! What holds of every document: nothing that a contribution holds is
//! left out of it.

use vstd::prelude::*;
use crate::markdown::{
    bullet_lines, bullets_part, by_author, contribution_section, contribution_sections,
    detail_line, detail_lines, detail_text, details_part, document, document_head, paragraph,
    reference_line, reference_lines, references_part, section_head, commits_part,
};
use crate::model::{CommitView, ContributionView, TechnicalDetailView};
use crate::text::decimal;

verus! {

/// Whether `piece` stands somewhere in `text`, character for character.
pub open spec fn holds(text: Seq<char>, piece: Seq<char>) -> bool {
    exists|i: int|
        0 <= i && i + piece.len() <= text.len() && #[trigger] text.subrange(i, i + piece.len())
            == piece
}

/// A text holds what stands between its start and its end.
pub proof fn lemma_holds_middle(before: Seq<char>, piece: Seq<char>, after: Seq<char>)
    ensures
        holds(before + piece + after, piece),
{
    let text = before + piece + after;
    assert(text.subrange(before.len() as int, (before.len() + piece.len()) as int) =~= piece);
}

/// What a piece of a text holds, the text holds.
pub proof fn lemma_holds_within(text: Seq<char>, part: Seq<char>, piece: Seq<char>)
    requires
        holds(text, part),
        holds(part, piece),
    ensures
        holds(text, piece),
{
    let i = choose|i: int|
        0 <= i && i + part.len() <= text.len() && #[trigger] text.subrange(i, i + part.len())
            == part;
    let j = choose|j: int|
        0 <= j && j + piece.len() <= part.len() && #[trigger] part.subrange(j, j + piece.len())
            == piece;
    assert(text.subrange(i + j, i + j + piece.len()) =~= text.subrange(
        i,
        i + part.len(),
    ).subrange(j, j + piece.len()));
}

/// A text holds its start and its end.
pub proof fn lemma_holds_parts(first: Seq<char>, second: Seq<char>)
    ensures
        holds(first + second, first),
        holds(first + second, second),
{
    let none = Seq::<char>::empty();
    lemma_holds_middle(none, first, second);
    assert(none + first + second =~= first + second);
    lemma_holds_middle(first, second, none);
    assert(first + second + none =~= first + second);
}

/// What the start or the end of a text holds, the text holds.
pub proof fn lemma_holds_either(first: Seq<char>, second: Seq<char>, piece: Seq<char>)
    requires
        holds(first, piece) || holds(second, piece),
    ensures
        holds(first + second, piece),
{
    lemma_holds_parts(first, second);
    if holds(first, piece) {
        lemma_holds_within(first + second, first, piece);
    } else {
        lemma_holds_within(first + second, second, piece);
    }
}

/// Every text holds the empty text.
pub proof fn lemma_holds_nothing(text: Seq<char>)
    ensures
        holds(text, Seq::<char>::empty()),
{
    let none = Seq::<char>::empty();
    let start: int = 0;
    assert(text.subrange(start, start + none.len()) =~= none);
}

/// The lines for commit identifiers hold each of the identifiers.
pub proof fn lemma_reference_lines_hold(ids: Seq<Seq<char>>, shown: Seq<CommitView>, k: int)
    requires
        0 <= k < ids.len(),
    ensures
        holds(reference_lines(ids, shown), ids[k]),
    decreases ids.len(),
{
    let head = reference_lines(ids.drop_last(), shown);
    let last = reference_line(ids.last(), shown);
    if k == ids.len() - 1 {
        let i = crate::state::first_match(shown, crate::markdown::resolving(ids.last()));
        let rest = "`"@ + if i < shown.len() {
            " "@ + crate::markdown::commit_summary(shown[i])
        } else {
            Seq::empty()
        } + "\n"@;
        lemma_holds_middle("- `"@, ids.last(), rest);
        assert("- `"@ + ids.last() + rest =~= last);
        lemma_holds_either(head, last, ids[k]);
    } else {
        lemma_reference_lines_hold(ids.drop_last(), shown, k);
        assert(ids.drop_last()[k] == ids[k]);
        lemma_holds_either(head, last, ids[k]);
    }
}

/// The lines for technical details hold the key and the value of each.
pub proof fn lemma_detail_lines_hold(details: Seq<TechnicalDetailView>, k: int)
    requires
        0 <= k < details.len(),
    ensures
        holds(detail_lines(details), details[k].key),
        holds(detail_lines(details), detail_text(details[k].value)),
    decreases details.len(),
{
    let head = detail_lines(details.drop_last());
    let last = detail_line(details.last());
    if k == details.len() - 1 {
        let d = details.last();
        lemma_holds_middle("- **"@, d.key, "**: "@ + detail_text(d.value) + "\n"@);
        assert("- **"@ + d.key + ("**: "@ + detail_text(d.value) + "\n"@) =~= last);
        lemma_holds_middle("- **"@ + d.key + "**: "@, detail_text(d.value), "\n"@);
        lemma_holds_either(head, last, d.key);
        lemma_holds_either(head, last, detail_text(d.value));
    } else {
        lemma_detail_lines_hold(details.drop_last(), k);
        assert(details.drop_last()[k] == details[k]);
        lemma_holds_either(head, last, details[k].key);
        lemma_holds_either(head, last, detail_text(details[k].value));
    }
}

/// The lines for resume bullets hold each of the bullets.
pub proof fn lemma_bullet_lines_hold(bullets: Seq<Seq<char>>, k: int)
    requires
        0 <= k < bullets.len(),
    ensures
        holds(bullet_lines(bullets), bullets[k]),
    decreases bullets.len(),
{
    let head = bullet_lines(bullets.drop_last());
    if k == bullets.len() - 1 {
        lemma_holds_middle(head + decimal(bullets.len()) + ". "@, bullets.last(), "\n"@);
    } else {
        lemma_bullet_lines_hold(bullets.drop_last(), k);
        assert(bullets.drop_last()[k] == bullets[k]);
        let last = decimal(bullets.len()) + ". "@ + bullets.last() + "\n"@;
        lemma_holds_either(head, last, bullets[k]);
        assert(head + last =~= bullet_lines(bullets));
    }
}

/// A paragraph holds its body.
pub proof fn lemma_paragraph_holds(heading: Seq<char>, body: Seq<char>)
    ensures
        holds(paragraph(heading, body), body),
{
    if body.len() > 0 {
        lemma_holds_middle("\n"@ + heading, body, "\n"@);
    } else {
        lemma_holds_nothing(paragraph(heading, body));
        assert(body =~= Seq::<char>::empty());
    }
}

/// The heading of a section holds the name, the category and the
/// priority of its contribution.
pub proof fn lemma_section_head_holds(c: ContributionView)
    ensures
        holds(section_head(c), c.name),
        holds(section_head(c), c.category),
        holds(section_head(c), decimal(c.priority as nat)),
{
    let number = decimal(c.priority as nat);
    lemma_holds_middle(
        "\n## "@,
        c.name,
        "\n\n**Category:** "@ + c.category + " | **Priority:** "@ + number + "\n"@,
    );
    assert("\n## "@ + c.name + ("\n\n**Category:** "@ + c.category + " | **Priority:** "@ + number
        + "\n"@) =~= section_head(c));
    lemma_holds_middle(
        "\n## "@ + c.name + "\n\n**Category:** "@,
        c.category,
        " | **Priority:** "@ + number + "\n"@,
    );
    assert("\n## "@ + c.name + "\n\n**Category:** "@ + c.category + (" | **Priority:** "@ + number
        + "\n"@) =~= section_head(c));
    lemma_holds_middle(
        "\n## "@ + c.name + "\n\n**Category:** "@ + c.category + " | **Priority:** "@,
        number,
        "\n"@,
    );
}

/// The section of a contribution holds each of its eight parts.
pub proof fn lemma_section_parts(c: ContributionView, shown: Seq<CommitView>)
    ensures
        holds(contribution_section(c, shown), section_head(c)),
        holds(contribution_section(c, shown), paragraph(""@, c.overview)),
        holds(contribution_section(c, shown), paragraph("### Description\n\n"@, c.description)),
        holds(
            contribution_section(c, shown),
            references_part("\n### Key Commits\n\n"@, c.key_commits, shown),
        ),
        holds(
            contribution_section(c, shown),
            references_part("\n### Related Commits\n\n"@, c.related_commits, shown),
        ),
        holds(contribution_section(c, shown), details_part(c.technical_details)),
        holds(contribution_section(c, shown), bullets_part(c.resume_bullets)),
{
    let heading = section_head(c);
    let overview = paragraph(""@, c.overview);
    let description = paragraph("### Description\n\n"@, c.description);
    let keys = references_part("\n### Key Commits\n\n"@, c.key_commits, shown);
    let related = references_part("\n### Related Commits\n\n"@, c.related_commits, shown);
    let commits = commits_part(shown);
    let details = details_part(c.technical_details);
    let bullets = bullets_part(c.resume_bullets);
    let whole = heading + overview + description + keys + related + commits + details + bullets;
    let none = Seq::<char>::empty();
    assert(whole == contribution_section(c, shown));
    lemma_holds_middle(none, heading, overview + description + keys + related + commits + details + bullets);
    assert(none + heading + (overview + description + keys + related + commits + details + bullets) =~= whole);
    lemma_holds_middle(heading, overview, description + keys + related + commits + details + bullets);
    assert(heading + overview + (description + keys + related + commits + details + bullets) =~= whole);
    lemma_holds_middle(heading + overview, description, keys + related + commits + details + bullets);
    assert(heading + overview + description + (keys + related + commits + details + bullets) =~= whole);
    lemma_holds_middle(heading + overview + description, keys, related + commits + details + bullets);
    assert(heading + overview + description + keys + (related + commits + details + bullets) =~= whole);
    lemma_holds_middle(heading + overview + description + keys, related, commits + details + bullets);
    assert(heading + overview + description + keys + related + (commits + details + bullets) =~= whole);
    lemma_holds_middle(heading + overview + description + keys + related + commits, details, bullets);
    lemma_holds_middle(heading + overview + description + keys + related + commits + details, bullets, none);
    assert(heading + overview + description + keys + related + commits + details + bullets + none =~= whole);
}

/// Whether `text` holds all that the contribution `c` holds: its name,
/// its category, its priority, its overview, its description, every key
/// commit and every related commit that it lists, the key and the value of
/// each of its technical details, and each of its resume bullets.
pub open spec fn holds_contribution(text: Seq<char>, c: ContributionView) -> bool {
    &&& holds(text, c.name)
    &&& holds(text, c.category)
    &&& holds(text, decimal(c.priority as nat))
    &&& holds(text, c.overview)
    &&& holds(text, c.description)
    &&& forall|i: int| 0 <= i < c.key_commits.len() ==> holds(text, #[trigger] c.key_commits[i])
    &&& forall|i: int|
        0 <= i < c.related_commits.len() ==> holds(text, #[trigger] c.related_commits[i])
    &&& forall|i: int|
        0 <= i < c.technical_details.len() ==> holds(text, (#[trigger] c.technical_details[i]).key)
            && holds(text, detail_text(c.technical_details[i].value))
    &&& forall|i: int|
        0 <= i < c.resume_bullets.len() ==> holds(text, #[trigger] c.resume_bullets[i])
}

/// What a part of a text holds of a contribution, the text holds.
pub proof fn lemma_holds_contribution_within(text: Seq<char>, part: Seq<char>, c: ContributionView)
    requires
        holds(text, part),
        holds_contribution(part, c),
    ensures
        holds_contribution(text, c),
{
    lemma_holds_within(text, part, c.name);
    lemma_holds_within(text, part, c.category);
    lemma_holds_within(text, part, decimal(c.priority as nat));
    lemma_holds_within(text, part, c.overview);
    lemma_holds_within(text, part, c.description);
    assert forall|i: int| 0 <= i < c.key_commits.len() implies holds(
        text,
        #[trigger] c.key_commits[i],
    ) by {
        lemma_holds_within(text, part, c.key_commits[i]);
    }
    assert forall|i: int| 0 <= i < c.related_commits.len() implies holds(
        text,
        #[trigger] c.related_commits[i],
    ) by {
        lemma_holds_within(text, part, c.related_commits[i]);
    }
    assert forall|i: int| 0 <= i < c.technical_details.len() implies holds(
        text,
        (#[trigger] c.technical_details[i]).key,
    ) && holds(text, detail_text(c.technical_details[i].value)) by {
        lemma_holds_within(text, part, c.technical_details[i].key);
        lemma_holds_within(text, part, detail_text(c.technical_details[i].value));
    }
    assert forall|i: int| 0 <= i < c.resume_bullets.len() implies holds(
        text,
        #[trigger] c.resume_bullets[i],
    ) by {
        lemma_holds_within(text, part, c.resume_bullets[i]);
    }
}

/// The section of a contribution holds all that the contribution holds,
/// whatever commits are shown with it.
pub proof fn law_section_holds_contribution(c: ContributionView, shown: Seq<CommitView>)
    ensures
        holds_contribution(contribution_section(c, shown), c),
{
    let section = contribution_section(c, shown);
    lemma_section_parts(c, shown);
    lemma_section_head_holds(c);
    lemma_holds_within(section, section_head(c), c.name);
    lemma_holds_within(section, section_head(c), c.category);
    lemma_holds_within(section, section_head(c), decimal(c.priority as nat));
    lemma_paragraph_holds(""@, c.overview);
    lemma_holds_within(section, paragraph(""@, c.overview), c.overview);
    lemma_paragraph_holds("### Description\n\n"@, c.description);
    lemma_holds_within(section, paragraph("### Description\n\n"@, c.description), c.description);
    assert forall|i: int| 0 <= i < c.key_commits.len() implies holds(
        section,
        #[trigger] c.key_commits[i],
    ) by {
        let part = references_part("\n### Key Commits\n\n"@, c.key_commits, shown);
        lemma_reference_lines_hold(c.key_commits, shown, i);
        lemma_holds_either(
            "\n### Key Commits\n\n"@,
            reference_lines(c.key_commits, shown),
            c.key_commits[i],
        );
        lemma_holds_within(section, part, c.key_commits[i]);
    }
    assert forall|i: int| 0 <= i < c.related_commits.len() implies holds(
        section,
        #[trigger] c.related_commits[i],
    ) by {
        let part = references_part("\n### Related Commits\n\n"@, c.related_commits, shown);
        lemma_reference_lines_hold(c.related_commits, shown, i);
        lemma_holds_either(
            "\n### Related Commits\n\n"@,
            reference_lines(c.related_commits, shown),
            c.related_commits[i],
        );
        lemma_holds_within(section, part, c.related_commits[i]);
    }
    assert forall|i: int| 0 <= i < c.technical_details.len() implies holds(
        section,
        (#[trigger] c.technical_details[i]).key,
    ) && holds(section, detail_text(c.technical_details[i].value)) by {
        let part = details_part(c.technical_details);
        lemma_detail_lines_hold(c.technical_details, i);
        lemma_holds_either(
            "\n### Technical Details\n\n"@,
            detail_lines(c.technical_details),
            c.technical_details[i].key,
        );
        lemma_holds_either(
            "\n### Technical Details\n\n"@,
            detail_lines(c.technical_details),
            detail_text(c.technical_details[i].value),
        );
        lemma_holds_within(section, part, c.technical_details[i].key);
        lemma_holds_within(section, part, detail_text(c.technical_details[i].value));
    }
    assert forall|i: int| 0 <= i < c.resume_bullets.len() implies holds(
        section,
        #[trigger] c.resume_bullets[i],
    ) by {
        let part = bullets_part(c.resume_bullets);
        lemma_bullet_lines_hold(c.resume_bullets, i);
        lemma_holds_either(
            "\n### Resume Bullets\n\n"@,
            bullet_lines(c.resume_bullets),
            c.resume_bullets[i],
        );
        lemma_holds_within(section, part, c.resume_bullets[i]);
    }
}

/// The sections of contributions hold the section of each.
pub proof fn lemma_sections_hold(
    entries: Seq<(ContributionView, Seq<CommitView>)>,
    author: Option<Seq<char>>,
    k: int,
)
    requires
        0 <= k < entries.len(),
    ensures
        holds(
            contribution_sections(entries, author),
            contribution_section(entries[k].0, entries[k].1.filter(by_author(author))),
        ),
    decreases entries.len(),
{
    let head = contribution_sections(entries.drop_last(), author);
    let last = contribution_section(
        entries.last().0,
        entries.last().1.filter(by_author(author)),
    );
    lemma_holds_parts(head, last);
    if k < entries.len() - 1 {
        lemma_sections_hold(entries.drop_last(), author, k);
        assert(entries.drop_last()[k] == entries[k]);
        lemma_holds_within(
            head + last,
            head,
            contribution_section(entries[k].0, entries[k].1.filter(by_author(author))),
        );
    }
}

/// A document holds all that each of its contributions holds: nothing
/// of a contribution is left out, whoever the commits are filtered by. A
/// contribution without technical details gets no part for them.
pub proof fn law_document_holds_contributions(
    url: Seq<char>,
    entries: Seq<(ContributionView, Seq<CommitView>)>,
    author: Option<Seq<char>>,
    k: int,
)
    requires
        0 <= k < entries.len(),
    ensures
        holds(document(url, entries, author), url),
        holds_contribution(document(url, entries, author), entries[k].0),
        details_part(Seq::empty()) == Seq::<char>::empty(),
{
    let text = document(url, entries, author);
    let sections = contribution_sections(entries, author);
    let section = contribution_section(entries[k].0, entries[k].1.filter(by_author(author)));
    lemma_holds_parts(document_head(url, author), sections);
    lemma_sections_hold(entries, author, k);
    lemma_holds_within(text, sections, section);
    law_section_holds_contribution(entries[k].0, entries[k].1.filter(by_author(author)));
    lemma_holds_contribution_within(text, section, entries[k].0);
    let tail = "\n"@ + match author {
        Some(a) => "Author: "@ + a + "\n"@,
        None => Seq::empty(),
    };
    lemma_holds_middle("# Contributions\n\nRepository: "@, url, tail);
    assert("# Contributions\n\nRepository: "@ + url + tail =~= document_head(url, author));
    lemma_holds_within(text, document_head(url, author), url);
}

} // verus!
