//! Plain data carried by the remote service's notification objects.

use vstd::prelude::*;

verus! {

/// The kind of entity a notification is about.
#[derive(Clone, Copy, Debug, PartialEq, Eq, Structural)]
pub enum SubjectType {
    Commit,
    Discussion,
    Issue,
    PullRequest,
}

/// Whether the underlying issue or pull request is open or closed.
#[derive(Clone, Copy, Debug, PartialEq, Eq, Structural)]
pub enum SubjectState {
    Open,
    Closed,
}

/// The subject line of one notification.
#[derive(Clone, Debug)]
pub struct Subject {
    pub title: String,
    /// Resource address of the subject's detail; absent for discussions.
    pub url: Option<String>,
    pub kind: SubjectType,
}

/// Secondary per-subject data, fetched lazily from the subject's own URL.
#[derive(Clone, Debug)]
pub struct SubjectDetail {
    pub url: String,
    pub html_url: String,
    /// Absent for commits, which have no open/closed state.
    pub state: Option<SubjectState>,
    /// Absent for commits.
    pub title: Option<String>,
}

/// The repository one notification belongs to.
#[derive(Clone, Debug)]
pub struct Repository {
    pub full_name: String,
}

/// One entry of the unread-notification list, as the remote service sends it.
#[derive(Clone, Debug)]
pub struct Notification {
    pub id: String,
    pub repository: Repository,
    pub subject: Subject,
    pub updated_at: String,
}

impl SubjectType {
    /// The short label printed for this kind.
    pub open spec fn spec_label(self) -> Seq<char> {
        match self {
            SubjectType::Commit => "Commit"@,
            SubjectType::Discussion => "Discuss"@,
            SubjectType::Issue => "Issue"@,
            SubjectType::PullRequest => "PullReq"@,
        }
    }

    /// The short label printed for this kind.
    pub fn label(&self) -> (r: &'static str)
        ensures
            r@ == self.spec_label(),
    {
        match self {
            SubjectType::Commit => "Commit",
            SubjectType::Discussion => "Discuss",
            SubjectType::Issue => "Issue",
            SubjectType::PullRequest => "PullReq",
        }
    }

    /// The kind selected by a kind-restriction flag value, if any.
    pub open spec fn spec_from_flag(s: Seq<char>) -> Option<SubjectType> {
        if s == "commit"@ {
            Some(SubjectType::Commit)
        } else if s == "issue"@ {
            Some(SubjectType::Issue)
        } else if s == "pr"@ {
            Some(SubjectType::PullRequest)
        } else {
            None
        }
    }

    /// Map a kind-restriction flag value to the kind it names.
    pub fn from_flag(s: &str) -> (r: Option<SubjectType>)
        ensures
            r == SubjectType::spec_from_flag(s@),
    {
        if crate::text::str_eq(s, "commit") {
            Some(SubjectType::Commit)
        } else if crate::text::str_eq(s, "issue") {
            Some(SubjectType::Issue)
        } else if crate::text::str_eq(s, "pr") {
            Some(SubjectType::PullRequest)
        } else {
            None
        }
    }
}

} // verus!
