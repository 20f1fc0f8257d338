//! One inbox entry and its lazily resolved subject detail.

use vstd::prelude::*;
use vstd::string::*;

use crate::error::Error;
use crate::gh_objects::Subject;
use crate::gh_objects::SubjectDetail;
use crate::gh_objects::SubjectState;
use crate::gh_objects::SubjectType;
use crate::text::spec_parse_u64;
use crate::text::spec_u64_string;
use crate::text::parse_u64;
use crate::text::u64_to_string;

verus! {

/// The remote service's unique identifier for one notification thread.
pub type ThreadID = u64;

/// One remote inbox entry.  Immutable except for the subject-detail cache,
/// which is written at most once.
#[derive(Clone, Debug)]
pub struct Subscription {
    pub subject: Subject,
    pub thread_id: ThreadID,
    pub repo_name: String,
    pub updated_at: String,
    /// The write-once detail cache.  Fill it only through `set_detail`, which
    /// rules out overwriting a sampled value.
    pub subject_detail: Option<SubjectDetail>,
}

impl Subscription {
    /// The cached subject detail; `None` until it has been resolved.
    pub open spec fn spec_detail(self) -> Option<SubjectDetail> {
        self.subject_detail
    }

    /// Build a subscription from one decoded notification.  Fails exactly
    /// when the notification's id is not a decimal thread id.
    pub fn from_notification(n: crate::gh_objects::Notification) -> (r: Result<Subscription, Error>)
        ensures
            spec_parse_u64(n.id@) is Some ==> (r matches Ok(s) && s.subject == n.subject
                && s.thread_id == spec_parse_u64(n.id@)->Some_0
                && s.repo_name == n.repository.full_name && s.updated_at == n.updated_at
                && s.spec_detail() is None),
            spec_parse_u64(n.id@) is None ==> r == Err::<Subscription, Error>(
                Error::MalformedThreadId { id: n.id },
            ),
    {
        match parse_u64(n.id.as_str()) {
            Some(id) => Ok(Subscription {
                subject: n.subject,
                thread_id: id,
                repo_name: n.repository.full_name,
                updated_at: n.updated_at,
                subject_detail: None,
            }),
            None => Err(Error::MalformedThreadId { id: n.id }),
        }
    }

    /// Whether the subject detail has been resolved.
    pub fn detail_resolved(&self) -> (r: bool)
        ensures
            r == (self.spec_detail() is Some),
    {
        self.subject_detail.is_some()
    }

    /// The cached subject detail.
    pub fn detail(&self) -> (r: &Option<SubjectDetail>)
        ensures
            *r == self.spec_detail(),
    {
        &self.subject_detail
    }

    /// Fill the subject-detail cache.  The cache is write-once: the remote
    /// state is sampled a single time, so setting an already-set cache is a
    /// caller error and is ruled out here.
    pub fn set_detail(&mut self, d: SubjectDetail)
        requires
            old(self).spec_detail() is None,
        ensures
            final(self).subject == old(self).subject,
            final(self).thread_id == old(self).thread_id,
            final(self).repo_name == old(self).repo_name,
            final(self).updated_at == old(self).updated_at,
            final(self).spec_detail() == Some(d),
    {
        self.subject_detail = Some(d);
    }

    /// The canonical web address of the subject, from the resolved detail.
    pub fn html_url(&self) -> (r: String)
        requires
            self.spec_detail() is Some,
        ensures
            r@ == self.spec_detail()->Some_0.html_url@,
    {
        match &self.subject_detail {
            Some(d) => d.html_url.clone(),
            None => unreached(),
        }
    }

    /// The subject's open/closed state, from the resolved detail; `None` for
    /// subjects without a state.
    pub fn subject_state(&self) -> (r: Option<SubjectState>)
        requires
            self.spec_detail() is Some,
        ensures
            r == self.spec_detail()->Some_0.state,
    {
        match &self.subject_detail {
            Some(d) => d.state,
            None => unreached(),
        }
    }

    /// The line printed for this subscription.
    pub open spec fn spec_describe(self) -> Seq<char> {
        "["@ + self.subject.kind.spec_label() + "] "@ + self.repo_name@ + " : "@
            + self.subject.title@ + " ("@ + spec_u64_string(self.thread_id as int) + ") at "@
            + self.updated_at@
    }

    /// Render this subscription as one line, as the tool prints it.
    pub fn describe(&self) -> (r: String)
        ensures
            r@ == self.spec_describe(),
    {
        let mut m = String::new();
        m.append("[");
        m.append(self.subject.kind.label());
        m.append("] ");
        m.append(self.repo_name.as_str());
        m.append(" : ");
        m.append(self.subject.title.as_str());
        m.append(" (");
        let id_s = u64_to_string(self.thread_id);
        m.append(id_s.as_str());
        m.append(") at ");
        m.append(self.updated_at.as_str());
        proof {
            assert(m@ =~= self.spec_describe());
        }
        m
    }
}

/// The address of one notification thread's own resource.
pub open spec fn spec_thread_url(id: ThreadID) -> Seq<char> {
    "https://api.github.com/notifications/threads/"@ + spec_u64_string(id as int)
}

/// The address of one notification thread's own resource.
pub fn thread_url(id: ThreadID) -> (r: String)
    ensures
        r@ == spec_thread_url(id),
{
    let mut m = String::from_str("https://api.github.com/notifications/threads/");
    let id_s = u64_to_string(id);
    m.append(id_s.as_str());
    m
}

/// The address of one thread's subscription resource.
pub open spec fn spec_subscription_url(id: ThreadID) -> Seq<char> {
    spec_thread_url(id) + "/subscription"@
}

/// The address of one thread's subscription resource.
pub fn subscription_url(id: ThreadID) -> (r: String)
    ensures
        r@ == spec_subscription_url(id),
{
    let mut m = thread_url(id);
    m.append("/subscription");
    m
}

/// The address of the unread-notification listing.
pub fn notifications_url() -> (r: String)
    ensures
        r@ == "https://api.github.com/notifications"@,
{
    String::from_str("https://api.github.com/notifications")
}

/// The entries of all fetched pages, in page order then in-page order.
pub open spec fn spec_flatten_pages(pages: Seq<Vec<Subscription>>) -> Seq<Subscription>
    decreases pages.len(),
{
    if pages.len() == 0 {
        Seq::empty()
    } else {
        pages.first()@ + spec_flatten_pages(pages.drop_first())
    }
}

/// Flatten per-page results into one collection, keeping page order and
/// in-page order.  The unread fetch gathers all pages or fails as a whole,
/// so this is the sole collation step.
pub fn flatten_pages(pages: Vec<Vec<Subscription>>) -> (r: Vec<Subscription>)
    ensures
        r@ == spec_flatten_pages(pages@),
{
    let ghost p0 = pages@;
    let mut rest = pages;
    let mut out: Vec<Subscription> = Vec::new();
    while rest.len() > 0
        invariant
            out@ + spec_flatten_pages(rest@) == spec_flatten_pages(p0),
        decreases rest@.len(),
    {
        let ghost r0 = rest@;
        let mut page = rest.remove(0);
        proof {
            assert(rest@ =~= r0.drop_first());
            assert(r0.first() == page);
        }
        let ghost o0 = out@;
        out.append(&mut page);
        proof {
            assert(o0 + (r0.first()@ + spec_flatten_pages(r0.drop_first())) =~= (o0 + r0.first()@)
                + spec_flatten_pages(r0.drop_first()));
        }
    }
    proof {
        assert(out@ + spec_flatten_pages(rest@) =~= out@);
    }
    out
}

/// The pages the unread fetch requests: one request for each page number
/// from 1 through the terminal page, all launched together and gathered.
pub fn page_numbers(last_page: usize) -> (r: Vec<usize>)
    ensures
        r@.len() == last_page,
        forall|i: int| 0 <= i < last_page ==> r@[i] == i + 1,
{
    let mut r: Vec<usize> = Vec::new();
    let mut i: usize = 0;
    while i < last_page
        invariant
            i <= last_page,
            r@.len() == i,
            forall|j: int| 0 <= j < i ==> r@[j] == j + 1,
        decreases last_page - i,
    {
        r.push(i + 1);
        i = i + 1;
    }
    r
}

} // verus!
