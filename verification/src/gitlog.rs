//! Reading the commits of one author out of version-control logs.
//!
//! A log is a text with one commit on each line. A line holds the commit's
//! hash, subject, author name, author email and date, in this order and
//! separated by commas. Nothing is escaped: a comma inside a subject starts
//! a new field and shifts the ones after it, and fields past the fifth are
//! ignored.

use vstd::prelude::*;
use crate::model::{Commit, CommitView, Project, ProjectList, ProjectView, commit_views};
use crate::text::{lines_of, split, split_lines, split_on, views};

verus! {

/// The character between two fields of a log line.
pub const FIELD_SEPARATOR: char = ',';

/// Number of fields of a commit.
pub const FIELD_COUNT: usize = 5;

/// Index of the field that holds the author's name.
pub const AUTHOR_FIELD: usize = 2;

/// What was read for one project: its name, the base URL of its remote, and
/// its log.
#[derive(Debug, Clone, PartialEq, Eq)]
pub struct ProjectSource {
    pub name: String,
    pub remote: String,
    pub log: String,
}

/// A [`ProjectSource`] as plain character sequences.
pub struct ProjectSourceView {
    pub name: Seq<char>,
    pub remote: Seq<char>,
    pub log: Seq<char>,
}

impl View for ProjectSource {
    type V = ProjectSourceView;

    open spec fn view(&self) -> ProjectSourceView {
        ProjectSourceView { name: self.name@, remote: self.remote@, log: self.log@ }
    }
}

/// The views of a sequence of sources, in the same order.
pub open spec fn source_views(sources: Seq<ProjectSource>) -> Seq<ProjectSourceView> {
    sources.map_values(|s: ProjectSource| s@)
}

/// A log line with too few fields to be read.
#[derive(Debug, Clone, Copy, PartialEq, Eq, Structural)]
pub struct MalformedLine {
    /// Index of the line in its log.
    pub line: usize,
}

/// A log line with too few fields to be read, by its place in the list of
/// sources.
#[derive(Debug, Clone, Copy, PartialEq, Eq, Structural)]
pub struct MalformedLineIn {
    /// Index of the project in the list.
    pub project: usize,
    /// Index of the line in the log of that project.
    pub line: usize,
}

/// The fields of a log line.
pub open spec fn fields_of(line: Seq<char>) -> Seq<Seq<char>> {
    split_on(line, FIELD_SEPARATOR)
}

/// Whether `line` has an author field and names `author` in it.
pub open spec fn is_by(line: Seq<char>, author: Seq<char>) -> bool {
    fields_of(line).len() > AUTHOR_FIELD && fields_of(line)[AUTHOR_FIELD as int] == author
}

/// Whether `line` cannot be read: it has no author field, or it is by
/// `author` and lacks one of the fields of a commit.
pub open spec fn is_malformed(line: Seq<char>, author: Seq<char>) -> bool {
    fields_of(line).len() <= AUTHOR_FIELD || (is_by(line, author) && fields_of(line).len()
        < FIELD_COUNT)
}

/// Whether `line` is a full commit by `author`.
pub open spec fn is_kept(line: Seq<char>, author: Seq<char>) -> bool {
    is_by(line, author) && fields_of(line).len() >= FIELD_COUNT
}

/// The predicate "is a full commit by `author`" on lines.
pub open spec fn kept_by(author: Seq<char>) -> spec_fn(Seq<char>) -> bool {
    |line: Seq<char>| is_kept(line, author)
}

/// The commit that a line with at least five fields holds.
pub open spec fn record_of(line: Seq<char>) -> CommitView {
    let fields = fields_of(line);
    CommitView {
        hash: fields[0],
        message: fields[1],
        author_name: fields[2],
        author_email: fields[3],
        date: fields[4],
    }
}

/// The commits by `author` among `lines`, in the order of the lines.
pub open spec fn commits_of_lines(lines: Seq<Seq<char>>, author: Seq<char>) -> Seq<CommitView> {
    lines.filter(kept_by(author)).map_values(|line: Seq<char>| record_of(line))
}

/// The commits by `author` in `log`, in the order of the log.
pub open spec fn commits_of_log(log: Seq<char>, author: Seq<char>) -> Seq<CommitView> {
    commits_of_lines(lines_of(log), author)
}

/// Whether every line of `log` can be read.
pub open spec fn is_readable(log: Seq<char>, author: Seq<char>) -> bool {
    forall|i: int| 0 <= i < lines_of(log).len() ==> !is_malformed(#[trigger] lines_of(log)[i], author)
}

/// Whether line `i` is the first line of `log` that cannot be read.
pub open spec fn first_malformed(log: Seq<char>, author: Seq<char>, i: int) -> bool {
    &&& 0 <= i < lines_of(log).len()
    &&& is_malformed(lines_of(log)[i], author)
    &&& forall|j: int| 0 <= j < i ==> !is_malformed(#[trigger] lines_of(log)[j], author)
}

/// The project that a source gives for `author`.
pub open spec fn project_of(source: ProjectSourceView, author: Seq<char>) -> ProjectView {
    ProjectView {
        name: source.name,
        commits: commits_of_log(source.log, author),
        remote: source.remote,
    }
}

/// Whether line `i` of source `p` is the first line of `sources` that cannot
/// be read.
pub open spec fn first_malformed_in(
    sources: Seq<ProjectSourceView>,
    author: Seq<char>,
    p: int,
    i: int,
) -> bool {
    &&& 0 <= p < sources.len()
    &&& first_malformed(sources[p].log, author, i)
    &&& forall|q: int| 0 <= q < p ==> is_readable(#[trigger] sources[q].log, author)
}

/// Reads the commits of the author named `author_name` out of `log`, in the
/// order of the log. Lines by other authors are passed over.
///
/// Fails on the first line that cannot be read, and only then: one without
/// an author field, or one by the author that lacks a field.
pub fn parse_log(log: &str, author_name: &str) -> (result: Result<Vec<Commit>, MalformedLine>)
    ensures
        match result {
            Ok(commits) => is_readable(log@, author_name@) && commit_views(commits@)
                == commits_of_log(log@, author_name@),
            Err(e) => first_malformed(log@, author_name@, e.line as int),
        },
{
    let lines = split_lines(log);
    let author = author_name.to_owned();
    let mut commits: Vec<Commit> = Vec::new();
    let n = lines.len();
    let ghost all = lines_of(log@);
    let mut k: usize = 0;
    while k < n
        invariant
            k <= n,
            n == lines.len(),
            all == lines_of(log@),
            views(lines@) == all,
            author@ == author_name@,
            forall|j: int| 0 <= j < k ==> !is_malformed(#[trigger] all[j], author@),
            commit_views(commits@) == commits_of_lines(all.take(k as int), author@),
        decreases n - k,
    {
        let line = lines[k].as_str();
        let ghost before = all.take(k as int);
        let ghost done = commit_views(commits@);
        proof {
            assert(all.take(k as int + 1) =~= before.push(line@));
            before.lemma_filter_push(line@, kept_by(author@));
        }
        let fields = split(line, FIELD_SEPARATOR);
        if fields.len() <= AUTHOR_FIELD {
            return Err(MalformedLine { line: k });
        }
        if fields[AUTHOR_FIELD] == author {
            if fields.len() < FIELD_COUNT {
                return Err(MalformedLine { line: k });
            }
            let commit = Commit {
                hash: fields[0].clone(),
                message: fields[1].clone(),
                author_name: fields[2].clone(),
                author_email: fields[3].clone(),
                date: fields[4].clone(),
            };
            commits.push(commit);
            assert(commits_of_lines(before.push(line@), author@) =~= done.push(record_of(line@)));
        }
        k += 1;
    }
    assert(all.take(n as int) =~= all);
    Ok(commits)
}

/// Builds the list of projects from what was read for each of them, in the
/// order of `sources`: each project keeps its name and its remote and gets
/// the commits that the author named `author_name` has in its log.
///
/// Fails on the first line, in the order of the sources and of their logs,
/// that cannot be read, and only then.
pub fn process_projects(sources: &Vec<ProjectSource>, author_name: &str) -> (result: Result<
    ProjectList,
    MalformedLineIn,
>)
    ensures
        match result {
            Ok(list) => {
                &&& forall|p: int|
                    0 <= p < sources.len() ==> is_readable(
                        #[trigger] source_views(sources@)[p].log,
                        author_name@,
                    )
                &&& list@ == source_views(sources@).map_values(
                    |s: ProjectSourceView| project_of(s, author_name@),
                )
            },
            Err(e) => first_malformed_in(
                source_views(sources@),
                author_name@,
                e.project as int,
                e.line as int,
            ),
        },
{
    let mut projects: Vec<Project> = Vec::new();
    let n = sources.len();
    let ghost all = source_views(sources@);
    let ghost wanted = all.map_values(|s: ProjectSourceView| project_of(s, author_name@));
    let mut p: usize = 0;
    while p < n
        invariant
            p <= n,
            n == sources.len(),
            all == source_views(sources@),
            wanted == all.map_values(|s: ProjectSourceView| project_of(s, author_name@)),
            forall|q: int| 0 <= q < p ==> is_readable(#[trigger] all[q].log, author_name@),
            projects@.len() == p,
            forall|q: int| 0 <= q < p ==> (#[trigger] projects@[q])@ == wanted[q],
        decreases n - p,
    {
        let source = &sources[p];
        let commits = match parse_log(source.log.as_str(), author_name) {
            Ok(commits) => commits,
            Err(e) => {
                return Err(MalformedLineIn { project: p, line: e.line });
            },
        };
        let project = Project { name: source.name.clone(), commits, remote: source.remote.clone() };
        projects.push(project);
        p += 1;
    }
    Ok(ProjectList { projects })
}

} // verus!
