//! From what a walk over a repository's history yields to the commits that
//! the store keeps.

use vstd::prelude::*;
use crate::error::{Error, ErrorView};
use crate::model::{views, Commit, CommitView};
use crate::state::{first_match, lemma_first_match_is};
use crate::text::{opt_text, texts};

verus! {

/// The changes of one commit against its first parent, as the walk found
/// them: the path on the new side of each changed entry, where it has one,
/// and the origin mark of each line of the diff.
#[derive(Debug)]
pub struct RawDiff {
    pub new_paths: Vec<Option<String>>,
    pub line_origins: Vec<char>,
}

/// The view of [`RawDiff`]: the same, with every string as a `Seq<char>`.
pub struct RawDiffView {
    pub new_paths: Seq<Option<Seq<char>>>,
    pub line_origins: Seq<char>,
}

/// Paths that may be missing, as texts.
pub open spec fn opt_paths(paths: Seq<Option<String>>) -> Seq<Option<Seq<char>>> {
    Seq::new(paths.len(), |i: int| opt_text(paths[i]))
}

impl View for RawDiff {
    type V = RawDiffView;

    open spec fn view(&self) -> RawDiffView {
        RawDiffView { new_paths: opt_paths(self.new_paths@), line_origins: self.line_origins@ }
    }
}

/// One commit as the walk found it. A field is `None` where the commit
/// does not hold it in a readable form; `diff` is `None` where the commit's
/// tree could not be read.
#[derive(Debug)]
pub struct RawCommit {
    pub hash: String,
    pub author_name: Option<String>,
    pub author_email: Option<String>,
    pub seconds: i64,
    pub message: Option<String>,
    pub parent_count: usize,
    pub diff: Option<RawDiff>,
}

/// The view of [`RawCommit`]: the same, with every string as a `Seq<char>`.
pub struct RawCommitView {
    pub hash: Seq<char>,
    pub author_name: Option<Seq<char>>,
    pub author_email: Option<Seq<char>>,
    pub seconds: i64,
    pub message: Option<Seq<char>>,
    pub parent_count: usize,
    pub diff: Option<RawDiffView>,
}

impl View for RawCommit {
    type V = RawCommitView;

    open spec fn view(&self) -> RawCommitView {
        RawCommitView {
            hash: self.hash@,
            author_name: opt_text(self.author_name),
            author_email: opt_text(self.author_email),
            seconds: self.seconds,
            message: opt_text(self.message),
            parent_count: self.parent_count,
            diff: match self.diff {
                Some(d) => Some(d@),
                None => None,
            },
        }
    }
}

/// How often `mark` occurs in `marks`.
pub open spec fn count_of(marks: Seq<char>, mark: char) -> nat
    decreases marks.len(),
{
    if marks.len() == 0 {
        0
    } else {
        count_of(marks.drop_last(), mark) + if marks.last() == mark {
            1nat
        } else {
            0nat
        }
    }
}

/// The paths that are present, in order.
pub open spec fn present_paths(paths: Seq<Option<Seq<char>>>) -> Seq<Seq<char>>
    decreases paths.len(),
{
    if paths.len() == 0 {
        Seq::empty()
    } else {
        match paths.last() {
            Some(p) => present_paths(paths.drop_last()).push(p),
            None => present_paths(paths.drop_last()),
        }
    }
}

/// Whether statistics are reported for `raw`: it has a parent, and its
/// diff could be computed.
pub open spec fn has_statistics(raw: RawCommitView) -> bool {
    raw.parent_count > 0 && raw.diff is Some
}

/// Whether the line counts of `raw` fit the commit record.
pub open spec fn countable(raw: RawCommitView) -> bool {
    has_statistics(raw) ==> {
        &&& count_of(raw.diff->0.line_origins, '+') <= i32::MAX
        &&& count_of(raw.diff->0.line_origins, '-') <= i32::MAX
    }
}

/// Selects the commits whose line counts do not fit the commit record.
pub open spec fn uncountable() -> spec_fn(RawCommitView) -> bool {
    |raw: RawCommitView| !countable(raw)
}

/// The name that stands for a missing author name.
pub open spec fn unknown_author() -> Seq<char> {
    "Unknown"@
}

/// The address that stands for a missing author address.
pub open spec fn unknown_email() -> Seq<char> {
    "unknown@example.com"@
}

/// The URL that stands for a repository without a readable origin remote.
pub open spec fn unknown_repository() -> Seq<char> {
    "unknown"@
}

/// The commit record of `raw` in the repository `url`, dated `date`. It
/// belongs to no contribution yet.
pub open spec fn commit_of(raw: RawCommitView, url: Seq<char>, date: Seq<char>) -> CommitView {
    CommitView {
        hash: raw.hash,
        repository_url: url,
        contribution_id: None,
        author: match raw.author_name {
            Some(name) => name,
            None => unknown_author(),
        },
        author_email: match raw.author_email {
            Some(email) => email,
            None => unknown_email(),
        },
        date: date,
        message: match raw.message {
            Some(m) => m,
            None => Seq::empty(),
        },
        files_changed: if has_statistics(raw) {
            present_paths(raw.diff->0.new_paths)
        } else {
            Seq::empty()
        },
        lines_added: if has_statistics(raw) {
            Some(count_of(raw.diff->0.line_origins, '+') as i32)
        } else {
            None
        },
        lines_deleted: if has_statistics(raw) {
            Some(count_of(raw.diff->0.line_origins, '-') as i32)
        } else {
            None
        },
    }
}

/// How often `mark` occurs in `marks`.
pub fn count_marks(marks: &Vec<char>, mark: char) -> (r: usize)
    ensures
        r == count_of(marks@, mark),
{
    let mut total: usize = 0;
    let mut i: usize = 0;
    while i < marks.len()
        invariant
            i <= marks@.len(),
            total <= i,
            total == count_of(marks@.take(i as int), mark),
        decreases marks@.len() - i,
    {
        assert(marks@.take(i + 1).drop_last() =~= marks@.take(i as int));
        if marks[i] == mark {
            total += 1;
        }
        i += 1;
    }
    assert(marks@.take(marks@.len() as int) =~= marks@);
    total
}

/// The numbers of added and of removed lines as a commit record holds
/// them. It fails, for the commit with the hash `hash`, where one of them
/// is more than the record can hold.
pub fn line_counts(added: usize, deleted: usize, hash: &str) -> (r: Result<(i32, i32), Error>)
    ensures
        r is Ok <==> added <= i32::MAX && deleted <= i32::MAX,
        r is Ok ==> r->Ok_0.0 == added && r->Ok_0.1 == deleted,
        r is Err ==> r->Err_0@ == ErrorView::DiffTooLarge(hash@),
{
    if added > 2147483647 || deleted > 2147483647 {
        Err(Error::DiffTooLarge(String::from_str(hash)))
    } else {
        Ok((added as i32, deleted as i32))
    }
}

/// The paths of `paths` that are present, in order.
pub fn collect_paths(paths: &Vec<Option<String>>) -> (r: Vec<String>)
    ensures
        texts(r@) == present_paths(opt_paths(paths@)),
{
    let ghost all = opt_paths(paths@);
    let mut out: Vec<String> = Vec::new();
    let mut i: usize = 0;
    assert(texts(out@) =~= present_paths(all.take(0)));
    while i < paths.len()
        invariant
            i <= paths@.len(),
            all == opt_paths(paths@),
            texts(out@) == present_paths(all.take(i as int)),
        decreases paths@.len() - i,
    {
        assert(all.take(i + 1).drop_last() =~= all.take(i as int));
        assert(all.take(i + 1).last() == opt_text(paths@[i as int]));
        let ghost before = texts(out@);
        match &paths[i] {
            Some(p) => {
                out.push(p.clone());
                assert(texts(out@) =~= before.push(p@));
            },
            None => {},
        }
        i += 1;
    }
    assert(all.take(paths@.len() as int) =~= all);
    out
}

/// `value`, or a copy of `fallback` where it is missing.
pub fn text_or(value: &Option<String>, fallback: &str) -> (r: String)
    ensures
        r@ == match *value {
            Some(s) => s@,
            None => fallback@,
        },
{
    match value {
        Some(s) => s.clone(),
        None => String::from_str(fallback),
    }
}

/// The commit record of `raw` in the repository `repository_url`, dated
/// `date`. It fails only where the diff has more added or removed lines
/// than the record can count.
pub fn commit_record(raw: &RawCommit, repository_url: &str, date: String) -> (r: Result<
    Commit,
    Error,
>)
    ensures
        r is Ok <==> countable(raw@),
        r is Ok ==> r->Ok_0@ == commit_of(raw@, repository_url@, date@),
        r is Err ==> r->Err_0@ == ErrorView::DiffTooLarge(raw.hash@),
{
    let author = text_or(&raw.author_name, "Unknown");
    let author_email = text_or(&raw.author_email, "unknown@example.com");
    let message = match &raw.message {
        Some(m) => m.clone(),
        None => String::new(),
    };
    let mut files_changed: Vec<String> = Vec::new();
    let mut lines_added: Option<i32> = None;
    let mut lines_deleted: Option<i32> = None;
    assert(texts(files_changed@) =~= Seq::<Seq<char>>::empty());
    if raw.parent_count > 0 {
        match &raw.diff {
            Some(diff) => {
                let added = count_marks(&diff.line_origins, '+');
                let deleted = count_marks(&diff.line_origins, '-');
                match line_counts(added, deleted, raw.hash.as_str()) {
                    Ok(counts) => {
                        files_changed = collect_paths(&diff.new_paths);
                        lines_added = Some(counts.0);
                        lines_deleted = Some(counts.1);
                    },
                    Err(e) => {
                        return Err(e);
                    },
                }
            },
            None => {},
        }
    }
    Ok(
        Commit {
            hash: raw.hash.clone(),
            repository_url: String::from_str(repository_url),
            contribution_id: None,
            author,
            author_email,
            date,
            message,
            files_changed,
            lines_added,
            lines_deleted,
        },
    )
}

/// The date and time, in UTC and in the notation of RFC 3339, of the
/// instant `seconds` seconds after the start of 1970; `None` where the
/// calendar of the `chrono` crate does not reach that instant.
pub uninterp spec fn rfc3339_utc(seconds: int) -> Option<Seq<char>>;

/// `DateTime::<Utc>::from_timestamp` of `chrono`, with no nanoseconds, and
/// `to_rfc3339` on the instant it gives. The contract names the text and
/// says nothing more of it.
#[verifier::external_body]
fn format_timestamp(seconds: i64) -> (r: Option<String>)
    ensures
        opt_text(r) == rfc3339_utc(seconds as int),
{
    match chrono::DateTime::<chrono::Utc>::from_timestamp(seconds, 0) {
        Some(instant) => Some(instant.to_rfc3339()),
        None => None,
    }
}

/// The date that stands for an instant beyond the calendar: the start of
/// 1970.
pub open spec fn epoch_date() -> Seq<char> {
    "1970-01-01T00:00:00+00:00"@
}

/// The date of a commit made `seconds` seconds after the start of 1970.
pub open spec fn date_text(seconds: int) -> Seq<char> {
    date_or_epoch(rfc3339_utc(seconds))
}

/// `formatted`, or the start of 1970 where it is missing.
pub open spec fn date_or_epoch(formatted: Option<Seq<char>>) -> Seq<char> {
    match formatted {
        Some(t) => t,
        None => epoch_date(),
    }
}

/// The date of a commit from the formatted instant, where the calendar
/// reaches it.
pub fn date_from(formatted: Option<String>) -> (r: String)
    ensures
        r@ == date_or_epoch(opt_text(formatted)),
{
    match formatted {
        Some(t) => t,
        None => String::from_str("1970-01-01T00:00:00+00:00"),
    }
}

/// The date of a commit made `seconds` seconds after the start of 1970, in
/// UTC.
pub fn commit_date(seconds: i64) -> (r: String)
    ensures
        r@ == date_text(seconds as int),
{
    date_from(format_timestamp(seconds))
}

/// The URL that identifies a repository: that of its origin remote, or
/// `unknown` where it has none.
pub fn repository_url_of(origin_url: &Option<String>) -> (r: String)
    ensures
        r@ == match *origin_url {
            Some(u) => u@,
            None => unknown_repository(),
        },
{
    text_or(origin_url, "unknown")
}

/// The commit records of a whole history, in the order of the walk. Each
/// commit is dated in UTC and belongs to the repository that `origin_url`
/// identifies. One commit that cannot be recorded fails the whole
/// extraction, with the error of the first such commit.
pub fn extract_commits_from_repo(history: &Vec<RawCommit>, origin_url: &Option<String>) -> (r:
    Result<Vec<Commit>, Error>)
    ensures
        r is Ok <==> forall|i: int|
            0 <= i < history@.len() ==> countable(#[trigger] views(history@)[i]),
        r is Ok ==> r->Ok_0@.len() == history@.len(),
        r is Ok ==> forall|i: int|
            0 <= i < history@.len() ==> (#[trigger] r->Ok_0@[i])@ == commit_of(
                views(history@)[i],
                match *origin_url {
                    Some(u) => u@,
                    None => unknown_repository(),
                },
                date_text(history@[i].seconds as int),
            ),
        r is Err ==> first_match(views(history@), uncountable()) < history@.len() && r->Err_0@
            == ErrorView::DiffTooLarge(
            views(history@)[first_match(views(history@), uncountable())].hash,
        ),
{
    let url = repository_url_of(origin_url);
    let mut commits: Vec<Commit> = Vec::new();
    let mut i: usize = 0;
    while i < history.len()
        invariant
            i <= history@.len(),
            commits@.len() == i,
            url@ == match *origin_url {
                Some(u) => u@,
                None => unknown_repository(),
            },
            forall|j: int| 0 <= j < i ==> countable(#[trigger] views(history@)[j]),
            forall|j: int|
                0 <= j < i ==> (#[trigger] commits@[j])@ == commit_of(
                    views(history@)[j],
                    url@,
                    date_text(history@[j].seconds as int),
                ),
        decreases history@.len() - i,
    {
        let raw = &history[i];
        assert(views(history@)[i as int] == raw@);
        let date = commit_date(raw.seconds);
        match commit_record(raw, url.as_str(), date) {
            Ok(commit) => {
                commits.push(commit);
            },
            Err(e) => {
                proof {
                    lemma_first_match_is(views(history@), uncountable(), i as int);
                }
                return Err(e);
            },
        }
        i += 1;
    }
    Ok(commits)
}

/// Whether `c` is a hexadecimal digit.
pub open spec fn is_hex_digit(c: char) -> bool {
    ('0' <= c && c <= '9') || ('a' <= c && c <= 'f') || ('A' <= c && c <= 'F')
}

/// Whether `text` is the hexadecimal notation of a commit identifier or of
/// the start of one: one to forty hexadecimal digits.
pub open spec fn is_commit_hash(text: Seq<char>) -> bool {
    &&& 1 <= text.len() <= 40
    &&& forall|i: int| 0 <= i < text.len() ==> is_hex_digit(#[trigger] text[i])
}

/// `Oid::from_str` of `git2`, asked only whether it accepts `text`. It
/// accepts a text of one to forty hexadecimal digits and no other.
#[verifier::external_body]
fn parses_as_oid(text: &str) -> (r: bool)
    ensures
        r == is_commit_hash(text@),
{
    git2::Oid::from_str(text).is_ok()
}

/// The commit record of the one commit that was asked for by
/// `commit_hash`, which the record keeps as it was given. It fails where
/// `commit_hash` is no commit identifier, and where the diff is too large.
pub fn get_commit_details(commit_hash: &str, raw: &RawCommit, origin_url: &Option<String>) -> (r:
    Result<Option<Commit>, Error>)
    ensures
        r is Ok <==> is_commit_hash(commit_hash@) && countable(raw@),
        r is Ok ==> r->Ok_0 is Some && r->Ok_0->0@ == (CommitView {
            hash: commit_hash@,
            ..commit_of(
                raw@,
                match *origin_url {
                    Some(u) => u@,
                    None => unknown_repository(),
                },
                date_text(raw.seconds as int),
            )
        }),
        !is_commit_hash(commit_hash@) ==> r is Err && r->Err_0@ == ErrorView::InvalidCommitHash(
            commit_hash@,
        ),
        is_commit_hash(commit_hash@) && !countable(raw@) ==> r is Err && r->Err_0@
            == ErrorView::DiffTooLarge(raw.hash@),
{
    if !parses_as_oid(commit_hash) {
        return Err(Error::InvalidCommitHash(String::from_str(commit_hash)));
    }
    let url = repository_url_of(origin_url);
    let date = commit_date(raw.seconds);
    match commit_record(raw, url.as_str(), date) {
        Ok(commit) => {
            let mut commit = commit;
            commit.hash = String::from_str(commit_hash);
            Ok(Some(commit))
        },
        Err(e) => Err(e),
    }
}

} // verus!
