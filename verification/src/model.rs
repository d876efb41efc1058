//! The records a changelog is made from, and their mathematical views.

use vstd::prelude::*;

verus! {

/// One commit, as read from the version-control log.
#[derive(Debug, Clone, PartialEq, Eq)]
pub struct Commit {
    /// Full object identifier.
    pub hash: String,
    /// Subject line.
    pub message: String,
    pub author_name: String,
    pub author_email: String,
    /// Author date, as the version-control tool printed it.
    pub date: String,
}

/// A [`Commit`] as plain character sequences.
pub struct CommitView {
    pub hash: Seq<char>,
    pub message: Seq<char>,
    pub author_name: Seq<char>,
    pub author_email: Seq<char>,
    pub date: Seq<char>,
}

impl View for Commit {
    type V = CommitView;

    open spec fn view(&self) -> CommitView {
        CommitView {
            hash: self.hash@,
            message: self.message@,
            author_name: self.author_name@,
            author_email: self.author_email@,
            date: self.date@,
        }
    }
}

/// The views of a sequence of commits, in the same order.
pub open spec fn commit_views(commits: Seq<Commit>) -> Seq<CommitView> {
    commits.map_values(|c: Commit| c@)
}

/// A project and the commits of one author in it, newest first.
#[derive(Debug, Clone, PartialEq, Eq)]
pub struct Project {
    pub name: String,
    pub commits: Vec<Commit>,
    /// Base URL of commit links; empty when it could not be resolved.
    pub remote: String,
}

/// A [`Project`] as plain sequences.
pub struct ProjectView {
    pub name: Seq<char>,
    pub commits: Seq<CommitView>,
    pub remote: Seq<char>,
}

impl View for Project {
    type V = ProjectView;

    open spec fn view(&self) -> ProjectView {
        ProjectView {
            name: self.name@,
            commits: commit_views(self.commits@),
            remote: self.remote@,
        }
    }
}

/// The projects of one changelog, in document order.
#[derive(Debug, Clone, PartialEq, Eq)]
pub struct ProjectList {
    pub projects: Vec<Project>,
}

/// The views of a sequence of projects, in the same order.
pub open spec fn project_views(projects: Seq<Project>) -> Seq<ProjectView> {
    projects.map_values(|p: Project| p@)
}

impl View for ProjectList {
    type V = Seq<ProjectView>;

    open spec fn view(&self) -> Seq<ProjectView> {
        project_views(self.projects@)
    }
}

} // verus!
