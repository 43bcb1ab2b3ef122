//! Job records as the project's job history reports them. Records are
//! immutable once built; the page that fetched them owns them, and a matched
//! record is cloned into the search result.

use vstd::prelude::*;

verus! {

/// The commit a job ran against.
#[derive(Debug, PartialEq)]
pub struct GitlabCommit {
    pub id: String,
}

/// One job record from the project's job history. The artifact-expiry field
/// matters only by its presence: an absent value means the artifact already
/// expired server-side.
#[derive(Debug, PartialEq)]
pub struct GitlabJob {
    pub artifacts_expire_at: Option<String>,
    pub id: u32,
    pub commit: GitlabCommit,
    pub job_ref: String,
    pub name: String,
    pub status: String,
    pub web_url: String,
}

/// The mathematical content of a job record.
pub struct JobView {
    pub artifacts_expire_at: Option<Seq<char>>,
    pub id: u32,
    pub commit_id: Seq<char>,
    pub job_ref: Seq<char>,
    pub name: Seq<char>,
    pub status: Seq<char>,
    pub web_url: Seq<char>,
}

/// The view of an optional owned text.
pub open spec fn opt_view(o: Option<String>) -> Option<Seq<char>> {
    match o {
        Some(s) => Some(s@),
        None => None,
    }
}

impl View for GitlabCommit {
    type V = Seq<char>;

    open spec fn view(&self) -> Seq<char> {
        self.id@
    }
}

impl View for GitlabJob {
    type V = JobView;

    open spec fn view(&self) -> JobView {
        JobView {
            artifacts_expire_at: opt_view(self.artifacts_expire_at),
            id: self.id,
            commit_id: self.commit@,
            job_ref: self.job_ref@,
            name: self.name@,
            status: self.status@,
            web_url: self.web_url@,
        }
    }
}

impl Clone for GitlabCommit {
    fn clone(&self) -> (r: Self)
        ensures
            r == *self,
    {
        GitlabCommit { id: self.id.clone() }
    }
}

impl Clone for GitlabJob {
    fn clone(&self) -> (r: Self)
        ensures
            r == *self,
    {
        GitlabJob {
            artifacts_expire_at: match &self.artifacts_expire_at {
                Some(s) => Some(s.clone()),
                None => None,
            },
            id: self.id,
            commit: self.commit.clone(),
            job_ref: self.job_ref.clone(),
            name: self.name.clone(),
            status: self.status.clone(),
            web_url: self.web_url.clone(),
        }
    }
}

} // verus!
