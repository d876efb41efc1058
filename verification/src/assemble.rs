//! Assembling the changelog document.
//!
//! The document opens with a title that carries the date. One block for each
//! project follows, in the order of the projects: the project's name, its
//! bugfixes, its features, and a blank line. A section without entries is
//! left out; a project without entries keeps its name and its blank line.

use vstd::prelude::*;
use crate::classify::{
    Category,
    ShortHash,
    first_short_hash,
    hash_too_short,
    section_text,
    separate_features_and_bug_fixes,
};
use crate::model::{Project, ProjectList, ProjectView};

verus! {

/// Heading of the bugfix section of a project.
pub const BUGFIX_TITLE: &'static str = "### :bug: Bugfixes\n";

/// Heading of the feature section of a project.
pub const FEATURE_TITLE: &'static str = "### :rocket: Features\n";

/// A commit that belongs in the changelog but whose hash is too short for an
/// entry, by its place in the list of projects.
#[derive(Debug, Clone, Copy, PartialEq, Eq, Structural)]
pub struct ShortHashIn {
    /// Index of the project in the list.
    pub project: usize,
    /// Index of the commit in that project.
    pub commit: usize,
}

/// A section: its title and its entries, or nothing where there are no
/// entries.
pub open spec fn section(title: Seq<char>, entries: Seq<char>) -> Seq<char> {
    if entries.len() > 0 {
        title + entries
    } else {
        Seq::<char>::empty()
    }
}

/// The bugfix section of a project.
pub open spec fn bugfix_section(project: ProjectView) -> Seq<char> {
    section(BUGFIX_TITLE@, section_text(project.remote, project.commits, Category::Bugfix))
}

/// The feature section of a project.
pub open spec fn feature_section(project: ProjectView) -> Seq<char> {
    section(FEATURE_TITLE@, section_text(project.remote, project.commits, Category::Feature))
}

/// The block of one project: name, bugfixes, features, blank line.
pub open spec fn project_block(project: ProjectView) -> Seq<char> {
    "## "@ + project.name + "\n"@ + bugfix_section(project) + feature_section(project) + "\n"@
}

/// The blocks of `projects`, one after the other.
pub open spec fn blocks(projects: Seq<ProjectView>) -> Seq<char>
    decreases projects.len(),
{
    if projects.len() == 0 {
        Seq::<char>::empty()
    } else {
        blocks(projects.drop_last()) + project_block(projects.last())
    }
}

/// The changelog of `projects`, dated `date`.
pub open spec fn changelog_text(date: Seq<char>, projects: Seq<ProjectView>) -> Seq<char> {
    "# Changelog for "@ + date + "\n\n"@ + blocks(projects)
}

/// Whether every commit of `project` that belongs in the changelog has a
/// hash long enough for its entry.
pub open spec fn hashes_suffice(project: ProjectView) -> bool {
    forall|i: int| 0 <= i < project.commits.len() ==> !hash_too_short(#[trigger] project.commits[i])
}

/// Whether commit `c` of project `p` is the first commit of `projects` with
/// too short a hash.
pub open spec fn first_short_hash_in(projects: Seq<ProjectView>, p: int, c: int) -> bool {
    &&& 0 <= p < projects.len()
    &&& first_short_hash(projects[p].commits, c)
    &&& forall|q: int| 0 <= q < p ==> hashes_suffice(#[trigger] projects[q])
}

/// Whether `result` is what rendering `projects` under `date` gives: the
/// document where every hash suffices, else the first commit whose hash does
/// not.
pub open spec fn is_rendering(
    date: Seq<char>,
    projects: Seq<ProjectView>,
    result: Result<String, ShortHashIn>,
) -> bool {
    match result {
        Ok(text) => {
            &&& forall|p: int| 0 <= p < projects.len() ==> hashes_suffice(#[trigger] projects[p])
            &&& text@ == changelog_text(date, projects)
        },
        Err(e) => first_short_hash_in(projects, e.project as int, e.commit as int),
    }
}

/// Renders the block of one project. Fails on the first commit that belongs
/// in the changelog but has too short a hash, and only then.
pub fn render_project(project: &Project) -> (result: Result<String, ShortHash>)
    ensures
        match result {
            Ok(block) => hashes_suffice(project@) && block@ == project_block(project@),
            Err(e) => first_short_hash(project@.commits, e.commit as int),
        },
{
    let (features, bugfixes) = match separate_features_and_bug_fixes(project) {
        Ok(pair) => pair,
        Err(e) => {
            return Err(e);
        },
    };
    let mut block = String::new();
    block.append("## ");
    block.append(project.name.as_str());
    block.append("\n");
    if !bugfixes.as_str().is_empty() {
        block.append(BUGFIX_TITLE);
        block.append(bugfixes.as_str());
    }
    if !features.as_str().is_empty() {
        block.append(FEATURE_TITLE);
        block.append(features.as_str());
    }
    block.append("\n");
    Ok(block)
}

/// Renders the changelog of `projects` under the date `date`, which is
/// written into the title as it is given.
///
/// Fails on the first commit, in the order of the projects and of their
/// commits, that belongs in the changelog but has too short a hash, and only
/// then.
pub fn render_changelog(date: &str, projects: &ProjectList) -> (result: Result<
    String,
    ShortHashIn,
>)
    ensures
        is_rendering(date@, projects@, result),
{
    let mut text = String::new();
    text.append("# Changelog for ");
    text.append(date);
    text.append("\n\n");
    let ghost title = text@;
    let ghost all = projects@;
    let n = projects.projects.len();
    let mut p: usize = 0;
    while p < n
        invariant
            p <= n,
            n == projects.projects.len(),
            all == projects@,
            title == "# Changelog for "@ + date@ + "\n\n"@,
            forall|q: int| 0 <= q < p ==> hashes_suffice(#[trigger] all[q]),
            text@ == title + blocks(all.take(p as int)),
        decreases n - p,
    {
        let project = &projects.projects[p];
        assert(all.take(p as int + 1).drop_last() =~= all.take(p as int));
        match render_project(project) {
            Err(e) => {
                return Err(ShortHashIn { project: p, commit: e.commit });
            },
            Ok(block) => {
                text.append(block.as_str());
            },
        }
        p += 1;
    }
    assert(all.take(n as int) =~= all);
    Ok(text)
}

/// The local calendar date of the moment of the call, as year, month and
/// day.
///
/// Calls `chrono::Local::now` and formats what it returns with
/// `chrono::DateTime::format` under the pattern `%Y-%m-%d`. The result
/// depends on the clock and the time zone of the machine, so nothing is
/// claimed of it. `Local::now` panics where the clock of the machine stands
/// before 1970.
#[verifier::external_body]
fn today() -> (date: String) {
    chrono::Local::now().format("%Y-%m-%d").to_string()
}

/// Renders the changelog of `projects` under today's local date.
///
/// The document is that of [`render_changelog`] for some date; which one is
/// the clock's to say. Fails as [`render_changelog`] does.
pub fn generate_changelog(projects: &ProjectList) -> (result: Result<String, ShortHashIn>)
    ensures
        exists|date: Seq<char>| is_rendering(date, projects@, result),
{
    let date = today();
    render_changelog(date.as_str(), projects)
}

/// Rendering is a function of its input: two renderings of the same projects
/// under the same date are the same document, character for character, or
/// fail on the same commit.
pub proof fn lemma_rendering_is_unique(
    date: Seq<char>,
    projects: Seq<ProjectView>,
    once: Result<String, ShortHashIn>,
    again: Result<String, ShortHashIn>,
)
    requires
        is_rendering(date, projects, once),
        is_rendering(date, projects, again),
    ensures
        match once {
            Ok(text) => again is Ok && again->Ok_0@ == text@,
            Err(e) => again == once,
        },
{
    // A failure names a commit whose hash is too short, so no success can
    // stand beside it; and of two failures neither can name a later commit
    // than the other, since each names the first.
}

/// Where a project has both bugfixes and features, its block lists the
/// bugfixes first: name, bugfix heading, bugfix entries, feature heading,
/// feature entries, blank line.
pub proof fn lemma_bugfixes_precede_features(project: ProjectView)
    requires
        section_text(project.remote, project.commits, Category::Bugfix).len() > 0,
        section_text(project.remote, project.commits, Category::Feature).len() > 0,
    ensures
        project_block(project) == "## "@ + project.name + "\n"@ + BUGFIX_TITLE@ + section_text(
            project.remote,
            project.commits,
            Category::Bugfix,
        ) + FEATURE_TITLE@ + section_text(project.remote, project.commits, Category::Feature)
            + "\n"@,
{
}

/// The blocks of two runs of projects, one after the other, are the blocks
/// of the first run followed by those of the second: projects appear in
/// their given order, and none is left out.
pub proof fn lemma_blocks_concat(first: Seq<ProjectView>, second: Seq<ProjectView>)
    ensures
        blocks(first + second) == blocks(first) + blocks(second),
    decreases second.len(),
{
    if second.len() > 0 {
        assert((first + second).drop_last() =~= first + second.drop_last());
        lemma_blocks_concat(first, second.drop_last());
    }
}

} // verus!
