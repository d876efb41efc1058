//! Sorting commits into features and bugfixes, and rendering their entries.
//!
//! A subject line is read as `tag: text`. The separator between the two is a
//! colon followed by a space, and a subject counts only if it holds that
//! separator exactly once: a subject without it, or with more than one, is
//! left out of the changelog. The tag is matched literally at the start of
//! the subject.

use vstd::prelude::*;
use crate::model::{CommitView, Project};
use crate::text::{chars_of, starts_with};

verus! {

/// Number of leading hash characters shown in an entry.
pub const SHORT_HASH_LEN: usize = 8;

/// Tag of a feature commit.
pub const FEATURE_TAG: &'static str = "feat:";

/// Tag of a bugfix commit.
pub const BUGFIX_TAG: &'static str = "fix:";

/// Where a commit goes in the changelog.
#[derive(Debug, Clone, Copy, PartialEq, Eq, Structural)]
pub enum Category {
    Feature,
    Bugfix,
    /// Not part of the changelog.
    Excluded,
}

/// A commit that belongs in the changelog but whose hash has fewer than
/// [`SHORT_HASH_LEN`] characters.
#[derive(Debug, Clone, Copy, PartialEq, Eq, Structural)]
pub struct ShortHash {
    /// Index of the commit in its project.
    pub commit: usize,
}

/// Whether the separator `": "` starts at index `i` of `s`.
pub open spec fn separator_at(s: Seq<char>, i: int) -> bool {
    0 <= i && i + 1 < s.len() && s[i] == ':' && s[i + 1] == ' '
}

/// Whether the separator occurs at index `i` of `s` and nowhere else.
pub open spec fn sole_separator(s: Seq<char>, i: int) -> bool {
    separator_at(s, i) && forall|j: int| separator_at(s, j) ==> j == i
}

/// Whether `s` holds the separator exactly once, so that it falls into a tag
/// part and a text part.
pub open spec fn splits_in_two(s: Seq<char>) -> bool {
    exists|i: int| sole_separator(s, i)
}

/// The index of the only separator of `s`, where `splits_in_two(s)`.
pub open spec fn separator_index(s: Seq<char>) -> int {
    choose|i: int| sole_separator(s, i)
}

/// The text after the separator of a subject line: what an entry displays.
pub open spec fn display_of(message: Seq<char>) -> Seq<char> {
    message.skip(separator_index(message) + 2)
}

/// The category of a commit with subject line `message`.
pub open spec fn category_of(message: Seq<char>) -> Category {
    if !splits_in_two(message) {
        Category::Excluded
    } else if FEATURE_TAG@.is_prefix_of(message) {
        Category::Feature
    } else if BUGFIX_TAG@.is_prefix_of(message) {
        Category::Bugfix
    } else {
        Category::Excluded
    }
}

/// The changelog entry of a commit: its text, its short hash, and a link to
/// the commit under `remote`.
pub open spec fn entry_line(display: Seq<char>, hash: Seq<char>, remote: Seq<char>) -> Seq<char> {
    " - "@ + display + " [#"@ + hash.take(SHORT_HASH_LEN as int) + "]("@ + remote + "/commits/"@
        + hash + ")\n"@
}

/// What `commit` adds to the section of `category`: its entry if it is of
/// that category, nothing otherwise.
pub open spec fn contribution(remote: Seq<char>, commit: CommitView, category: Category) -> Seq<
    char,
> {
    if category != Category::Excluded && category_of(commit.message) == category {
        entry_line(display_of(commit.message), commit.hash, remote)
    } else {
        Seq::<char>::empty()
    }
}

/// The entries of `category` among `commits`, one after the other in the
/// order of the commits.
pub open spec fn section_text(
    remote: Seq<char>,
    commits: Seq<CommitView>,
    category: Category,
) -> Seq<char>
    decreases commits.len(),
{
    if commits.len() == 0 {
        Seq::<char>::empty()
    } else {
        section_text(remote, commits.drop_last(), category) + contribution(
            remote,
            commits.last(),
            category,
        )
    }
}

/// Whether some commit among `commits` is of `category`.
pub open spec fn has_entry(commits: Seq<CommitView>, category: Category) -> bool {
    exists|i: int| 0 <= i < commits.len() && category_of(#[trigger] commits[i].message) == category
}

/// Whether `commit` belongs in the changelog but has too short a hash for an
/// entry.
pub open spec fn hash_too_short(commit: CommitView) -> bool {
    category_of(commit.message) != Category::Excluded && commit.hash.len() < SHORT_HASH_LEN
}

/// Whether `commits[i]` is the first commit with too short a hash.
pub open spec fn first_short_hash(commits: Seq<CommitView>, i: int) -> bool {
    &&& 0 <= i < commits.len()
    &&& hash_too_short(commits[i])
    &&& forall|j: int| 0 <= j < i ==> !hash_too_short(#[trigger] commits[j])
}

/// Finds the separator of a subject line, if the line holds exactly one.
pub fn find_separator(chars: &Vec<char>) -> (found: Option<usize>)
    ensures
        match found {
            Some(i) => sole_separator(chars@, i as int),
            None => !splits_in_two(chars@),
        },
{
    let n = chars.len();
    if n < 2 {
        return None;
    }
    let mut found: Option<usize> = None;
    let mut i: usize = 0;
    while i < n - 1
        invariant
            n == chars.len(),
            n >= 2,
            i <= n - 1,
            match found {
                Some(k) => k < i && separator_at(chars@, k as int) && forall|j: int|
                    j < i && separator_at(chars@, j) ==> j == k,
                None => forall|j: int| j < i ==> !separator_at(chars@, j),
            },
        decreases n - i,
    {
        if chars[i] == ':' && chars[i + 1] == ' ' {
            if let Some(k) = found {
                assert(separator_at(chars@, k as int) && separator_at(chars@, i as int));
                return None;
            }
            found = Some(i);
        }
        i += 1;
    }
    found
}

/// The category of a commit, by its subject line.
pub fn classify(message: &str) -> (category: Category)
    ensures
        category == category_of(message@),
{
    let chars = chars_of(message);
    if find_separator(&chars).is_none() {
        Category::Excluded
    } else if starts_with(&chars, &chars_of(FEATURE_TAG)) {
        Category::Feature
    } else if starts_with(&chars, &chars_of(BUGFIX_TAG)) {
        Category::Bugfix
    } else {
        Category::Excluded
    }
}

/// The text that the entry of a commit displays: what follows the separator
/// of its subject line. `None` where the line does not hold exactly one
/// separator.
pub fn display_message(message: &str) -> (display: Option<String>)
    ensures
        match display {
            Some(text) => splits_in_two(message@) && text@ == display_of(message@),
            None => !splits_in_two(message@),
        },
{
    let chars = chars_of(message);
    let n = chars.len();
    match find_separator(&chars) {
        None => None,
        Some(i) => {
            let text = message.substring_char(i + 2, n);
            Some(text.to_owned())
        },
    }
}

/// The first `n` characters of `text`, or `None` where it has fewer.
pub fn safe_prefix(text: &str, n: usize) -> (prefix: Option<&str>)
    ensures
        match prefix {
            Some(p) => n <= text@.len() && p@ == text@.take(n as int),
            None => text@.len() < n,
        },
{
    if text.unicode_len() < n {
        None
    } else {
        Some(text.substring_char(0, n))
    }
}

/// Renders the changelog entry of a commit with full hash `hash`, displayed
/// as `display` and linked under `remote`. `None` where the hash has fewer
/// than [`SHORT_HASH_LEN`] characters.
pub fn format_entry(display: &str, hash: &str, remote: &str) -> (line: Option<String>)
    ensures
        match line {
            Some(l) => hash@.len() >= SHORT_HASH_LEN && l@ == entry_line(
                display@,
                hash@,
                remote@,
            ),
            None => hash@.len() < SHORT_HASH_LEN,
        },
{
    match safe_prefix(hash, SHORT_HASH_LEN) {
        None => None,
        Some(short) => {
            let mut line = String::new();
            line.append(" - ");
            line.append(display);
            line.append(" [#");
            line.append(short);
            line.append("](");
            line.append(remote);
            line.append("/commits/");
            line.append(hash);
            line.append(")\n");
            Some(line)
        },
    }
}

/// Sorts the commits of `project` into features and bugfixes.
///
/// Returns the entries of the features and those of the bugfixes, each as
/// one text with the entries in the order of their commits. Commits of
/// neither category are left out. Fails on the first commit that belongs in
/// the changelog but has too short a hash, and only then.
pub fn separate_features_and_bug_fixes(project: &Project) -> (result: Result<
    (String, String),
    ShortHash,
>)
    ensures
        match result {
            Ok((features, bugfixes)) => {
                &&& forall|i: int|
                    0 <= i < project@.commits.len() ==> !hash_too_short(
                        #[trigger] project@.commits[i],
                    )
                &&& features@ == section_text(
                    project@.remote,
                    project@.commits,
                    Category::Feature,
                )
                &&& bugfixes@ == section_text(project@.remote, project@.commits, Category::Bugfix)
            },
            Err(e) => first_short_hash(project@.commits, e.commit as int),
        },
{
    let mut features = String::new();
    let mut bugfixes = String::new();
    let n = project.commits.len();
    let ghost commits = project@.commits;
    let ghost remote = project@.remote;
    let mut i: usize = 0;
    while i < n
        invariant
            i <= n,
            n == project.commits.len(),
            commits == project@.commits,
            remote == project@.remote,
            forall|j: int| 0 <= j < i ==> !hash_too_short(#[trigger] commits[j]),
            features@ == section_text(remote, commits.take(i as int), Category::Feature),
            bugfixes@ == section_text(remote, commits.take(i as int), Category::Bugfix),
        decreases n - i,
    {
        let commit = &project.commits[i];
        assert(commits.take(i as int + 1).drop_last() =~= commits.take(i as int));
        let category = classify(commit.message.as_str());
        if let Some(display) = display_message(commit.message.as_str()) {
            if category != Category::Excluded {
                match format_entry(display.as_str(), commit.hash.as_str(), project.remote.as_str()) {
                    None => {
                        return Err(ShortHash { commit: i });
                    },
                    Some(line) => {
                        if category == Category::Feature {
                            features.append(line.as_str());
                        } else {
                            bugfixes.append(line.as_str());
                        }
                    },
                }
            }
        }
        i += 1;
    }
    assert(commits.take(n as int) =~= commits);
    Ok((features, bugfixes))
}

/// A subject line made of a tag without colon, the separator, and a text
/// without separator holds exactly one separator, right after the tag, and
/// displays the text.
proof fn lemma_tagged_subject(message: Seq<char>, tag_len: int, text: Seq<char>)
    requires
        0 <= tag_len,
        message.len() == tag_len + 2 + text.len(),
        forall|k: int| 0 <= k < tag_len ==> message[k] != ':',
        message[tag_len] == ':',
        message[tag_len + 1] == ' ',
        message.skip(tag_len + 2) == text,
        forall|j: int| !separator_at(text, j),
    ensures
        splits_in_two(message),
        display_of(message) == text,
{
    assert forall|j: int| separator_at(message, j) implies j == tag_len by {
        if j >= tag_len + 2 {
            assert(separator_at(text, j - tag_len - 2));
        }
    }
    assert(sole_separator(message, tag_len));
}

/// A subject line `feat: X`, where `X` holds no separator, is a feature and
/// is displayed as `X`.
pub proof fn lemma_feature_subject(text: Seq<char>)
    requires
        forall|j: int| !separator_at(text, j),
    ensures
        category_of("feat: "@ + text) == Category::Feature,
        display_of("feat: "@ + text) == text,
{
    reveal_strlit("feat: ");
    reveal_strlit("feat:");
    let message = "feat: "@ + text;
    assert(message.skip(6) =~= text);
    lemma_tagged_subject(message, 4, text);
}

/// A subject line `fix: X`, where `X` holds no separator, is a bugfix and is
/// displayed as `X`.
pub proof fn lemma_bugfix_subject(text: Seq<char>)
    requires
        forall|j: int| !separator_at(text, j),
    ensures
        category_of("fix: "@ + text) == Category::Bugfix,
        display_of("fix: "@ + text) == text,
{
    reveal_strlit("fix: ");
    reveal_strlit("fix:");
    reveal_strlit("feat:");
    let message = "fix: "@ + text;
    assert(message.skip(5) =~= text);
    lemma_tagged_subject(message, 3, text);
    if FEATURE_TAG@.is_prefix_of(message) {
        assert(message.subrange(0, 5)[1] == message[1]);
    }
}

/// A subject line without separator, or with neither tag at its start, is
/// excluded.
pub proof fn lemma_other_subject(message: Seq<char>)
    requires
        (forall|j: int| !separator_at(message, j)) || (!FEATURE_TAG@.is_prefix_of(message)
            && !BUGFIX_TAG@.is_prefix_of(message)),
    ensures
        category_of(message) == Category::Excluded,
{
}

/// Order is kept: the entries of two runs of commits, one after the other,
/// are the entries of the first run followed by those of the second.
pub proof fn lemma_section_concat(
    remote: Seq<char>,
    first: Seq<CommitView>,
    second: Seq<CommitView>,
    category: Category,
)
    ensures
        section_text(remote, first + second, category) == section_text(remote, first, category)
            + section_text(remote, second, category),
    decreases second.len(),
{
    if second.len() > 0 {
        assert((first + second).drop_last() =~= first + second.drop_last());
        lemma_section_concat(remote, first, second.drop_last(), category);
    }
}

/// The entries of a single commit are its contribution.
pub proof fn lemma_section_single(remote: Seq<char>, commit: CommitView, category: Category)
    ensures
        section_text(remote, seq![commit], category) == contribution(remote, commit, category),
{
    assert(section_text(remote, seq![commit].drop_last(), category) =~= Seq::<char>::empty());
}

/// The entries of `commits` are those before index `i`, then what
/// `commits[i]` contributes, then those after it.
pub proof fn lemma_section_around(
    remote: Seq<char>,
    commits: Seq<CommitView>,
    i: int,
    category: Category,
)
    requires
        0 <= i < commits.len(),
    ensures
        section_text(remote, commits, category) == section_text(
            remote,
            commits.take(i),
            category,
        ) + contribution(remote, commits[i], category) + section_text(
            remote,
            commits.skip(i + 1),
            category,
        ),
{
    let before = commits.take(i);
    let one = seq![commits[i]];
    let after = commits.skip(i + 1);
    assert(commits =~= (before + one) + after);
    lemma_section_concat(remote, before + one, after, category);
    lemma_section_concat(remote, before, one, category);
    lemma_section_single(remote, commits[i], category);
}

/// A commit with subject `feat: X`, where `X` holds no separator, is listed
/// among the features, as `X` and at the place of the commit, and adds
/// nothing to the bugfixes.
pub proof fn lemma_feature_is_listed(
    remote: Seq<char>,
    commits: Seq<CommitView>,
    i: int,
    text: Seq<char>,
)
    requires
        0 <= i < commits.len(),
        commits[i].message == "feat: "@ + text,
        forall|j: int| !separator_at(text, j),
    ensures
        section_text(remote, commits, Category::Feature) == section_text(
            remote,
            commits.take(i),
            Category::Feature,
        ) + entry_line(text, commits[i].hash, remote) + section_text(
            remote,
            commits.skip(i + 1),
            Category::Feature,
        ),
        section_text(remote, commits, Category::Bugfix) == section_text(
            remote,
            commits.take(i),
            Category::Bugfix,
        ) + section_text(remote, commits.skip(i + 1), Category::Bugfix),
{
    lemma_feature_subject(text);
    lemma_section_around(remote, commits, i, Category::Feature);
    lemma_section_around(remote, commits, i, Category::Bugfix);
}

/// A commit with subject `fix: X`, where `X` holds no separator, is listed
/// among the bugfixes, as `X` and at the place of the commit, and adds
/// nothing to the features.
pub proof fn lemma_bugfix_is_listed(
    remote: Seq<char>,
    commits: Seq<CommitView>,
    i: int,
    text: Seq<char>,
)
    requires
        0 <= i < commits.len(),
        commits[i].message == "fix: "@ + text,
        forall|j: int| !separator_at(text, j),
    ensures
        section_text(remote, commits, Category::Bugfix) == section_text(
            remote,
            commits.take(i),
            Category::Bugfix,
        ) + entry_line(text, commits[i].hash, remote) + section_text(
            remote,
            commits.skip(i + 1),
            Category::Bugfix,
        ),
        section_text(remote, commits, Category::Feature) == section_text(
            remote,
            commits.take(i),
            Category::Feature,
        ) + section_text(remote, commits.skip(i + 1), Category::Feature),
{
    lemma_bugfix_subject(text);
    lemma_section_around(remote, commits, i, Category::Feature);
    lemma_section_around(remote, commits, i, Category::Bugfix);
}

/// A commit whose subject holds no separator, or starts with neither tag,
/// is in neither list: both are what they would be without the commit.
pub proof fn lemma_other_is_left_out(
    remote: Seq<char>,
    commits: Seq<CommitView>,
    i: int,
    category: Category,
)
    requires
        0 <= i < commits.len(),
        (forall|j: int| !separator_at(commits[i].message, j)) || (!FEATURE_TAG@.is_prefix_of(
            commits[i].message,
        ) && !BUGFIX_TAG@.is_prefix_of(commits[i].message)),
    ensures
        section_text(remote, commits, category) == section_text(
            remote,
            commits.remove(i),
            category,
        ),
{
    lemma_other_subject(commits[i].message);
    lemma_section_around(remote, commits, i, category);
    lemma_section_concat(remote, commits.take(i), commits.skip(i + 1), category);
}

/// A section has text exactly when some commit is of its category.
pub proof fn lemma_section_nonempty(
    remote: Seq<char>,
    commits: Seq<CommitView>,
    category: Category,
)
    requires
        category != Category::Excluded,
    ensures
        section_text(remote, commits, category).len() > 0 <==> has_entry(commits, category),
    decreases commits.len(),
{
    if commits.len() > 0 {
        let head = commits.drop_last();
        lemma_section_nonempty(remote, head, category);
        if category_of(commits.last().message) == category {
            reveal_strlit(" - ");
        } else if has_entry(commits, category) {
            let i = choose|i: int|
                0 <= i < commits.len() && category_of(#[trigger] commits[i].message) == category;
            assert(head[i] == commits[i]);
        }
    }
}

} // verus!
